//! Error messages of [`crate::buffer::vecbuffer::VecBuffer`] and of the
//! stand-alone verification functions, as constant strings.

use vstd::prelude::*;

verus! {

// Pre-command parsing errors
pub const INDEX_PARSE: &'static str = "Could not parse given index.";
pub const NO_COMMAND: &'static str = "No valid command given.";
pub const NEGATIVE_INDEX: &'static str = "Resulting index is negative.";
pub const NO_SELECTION: &'static str = "No selection set.";

// Buffer command errors
pub const INVALID_LINENR0: &'static str = "Cannot operate on line 0.";
pub const INDEX_TOO_BIG: &'static str = "Cannot operate beyond buffer's end.";
pub const SELECTION_EMPTY: &'static str = "Selection empty or inverted.";
pub const MOVE_INTO_SELF: &'static str = "Cannot move selection into itself.";
pub const INVALID_REGEX: &'static str = "Invalid regex entered.";
pub const NO_MATCH: &'static str = "No line matched requirements.";
pub const UNDO_HISTORY_TOO_LARGE: &'static str = "Too many changes in undo history.";
pub const INVALID_UNDO_STEPS: &'static str = "Cannot undo/redo beyond existing command history's start/end.";
pub const INVALID_LINE_TEXT: &'static str = "Line text must be exactly one newline terminated line.";

// Messages
pub const NO_ERROR: &'static str = "No errors recorded.";
pub const NO_FILE: &'static str = "No file set.";
pub const HELP_TEXT: &'static str = "Application commands:\n  q: Quit the editor. Warns on unsaved changes.\n  Q: Force quit the editor.\n  h: Print last occured error\n  H: Toggle printing errors vs just noting there was an error\n  help: Print this help text\n  =: Print current selection\n  #: Do nothing (start of comment)\nFile commands:\n  f: Print current filepath; or set filepath if one is given\n  e: Open given filepath for editing. If none given use current filepath. Warns\n     on unsaved changes.\n  E: Same as 'e' but unconditional (overwriting unsaved changes if any).\n  r: Append contents from given filepath to current selection. If none given\n     use current filepath.\n  w: Write selection (default all) to given filepath. If none given use current\n     filepath.\n  W: Append selection to given filepath. If none given use current filepath.\nPrint commands:\n  Most commands take flags p (print), n (numbered print), l (escaped print).\n  (no command): Normal print by default. Also accepts print flags.\n  N: Toggles if the 'n' flag is included in prints by default.\n  L: Toggles if the 'l' flag is included in prints by default.\n  z: Scroll (and print) given number of lines down from end of selection.\n  Z: Scroll (and print) given number of lines up from start of selection.\nEditing commands:\n  a: Append lines entered after the command to selection. Stop line entry with\n     lone '.' on a line.\n  i: Same as 'a' but places lines before selection.\n  c: Same as 'a' except it also cuts the selection into clipboard.\n  A: Same as 'a', but joins the last input line with the line following the\n     input (if any).\n  I: Same as 'i', but joins the first input line with the line preceding the\n     input (if any).\n  d: Cut the selection into clipboard.\n  y: Copy the selection into clipboard.\n  x/X: Append/prepend clipboard contents to selection.\n  m: Move the selection to after index given after command.\n  t: Copy the selection to after index given after command.\n  j: Join the selection into one line. (only removes newlines)\nRegex commands:\n  s: Uses the first character as a separator between a regex matching pattern\n     and a replacement string.\n     If no arguments are given it re-uses the arguments given last execution.\n  g: Uses the first character as a separator between a regex matching pattern\n     and any number of commands.\n     If the line doesn't end with the separator it takes input until the\n     separator is given alone on a line.\n  G: Same as 'g' but only takes a pattern. The commands to run against each\n     matching line are given upon each line.\n     Input is terminated by the separator alone on a line, just as 'g' if\n     command line isn't separator terminated.\n  v/V: Same as their 'g' counterparts except they invert the pattern.\n";

} // verus!
