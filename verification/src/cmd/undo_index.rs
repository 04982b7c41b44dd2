//! History indices, as the undo commands take them: parsed into a
//! [`HistoryInd`] first and interpreted against the history later.
//!
//! The parser returns a byte offset into the input; the `_chars` variant
//! counts characters instead.
use vstd::prelude::*;
use crate::cmd::selection::{IndexFault, trim_newlines, char_at, text_of, sat_add, sat_sub};
use crate::ed::Ed;
use crate::error::{EdError, EdResult};
use crate::text::{chars_of, is_digit, parse_usize, parse_usize_spec, byte_offset, byte_position};

verus! {

/// An index into the history as written, before interpretation.
#[derive(PartialEq, Debug)]
pub enum HistoryInd {
    /// `.`: the viewed snapshot.
    Current,
    /// `$`: the last snapshot.
    Last,
    /// `*n`: snapshot number `n`.
    Absolute(usize),
    /// `ind+n`.
    Add(Box<HistoryInd>, usize),
    /// `ind-n`, or `n` alone (`n` steps back).
    Sub(Box<HistoryInd>, usize),
}

/// The mathematical value of a [`HistoryInd`].
pub enum HistoryIndV {
    Current,
    Last,
    Absolute(usize),
    Add(Box<HistoryIndV>, usize),
    Sub(Box<HistoryIndV>, usize),
}

pub open spec fn history_ind_view(i: HistoryInd) -> HistoryIndV
    decreases i,
{
    match i {
        HistoryInd::Current => HistoryIndV::Current,
        HistoryInd::Last => HistoryIndV::Last,
        HistoryInd::Absolute(n) => HistoryIndV::Absolute(n),
        HistoryInd::Add(inner, n) => HistoryIndV::Add(Box::new(history_ind_view(*inner)), n),
        HistoryInd::Sub(inner, n) => HistoryIndV::Sub(Box::new(history_ind_view(*inner)), n),
    }
}

pub open spec fn opt_history_ind_view(i: Option<HistoryInd>) -> Option<HistoryIndV> {
    match i {
        Some(x) => Some(history_ind_view(x)),
        None => None,
    }
}

/// What the history index parser is in the middle of, with where the
/// current part started.
pub enum HistoryScan {
    Default(int),
    Absolute(int),
    Offset(int, bool),
}

/// `cur`, or `.` when there is no index yet.
pub open spec fn or_current(cur: Option<HistoryIndV>) -> HistoryIndV {
    match cur {
        Some(x) => x,
        None => HistoryIndV::Current,
    }
}

/// `cur` moved `offset` snapshots back (`neg`) or forward.
pub open spec fn history_stepped(neg: bool, cur: Option<HistoryIndV>, offset: usize) -> HistoryIndV {
    if neg {
        HistoryIndV::Sub(Box::new(or_current(cur)), offset)
    } else {
        HistoryIndV::Add(Box::new(or_current(cur)), offset)
    }
}

/// The result of a plain history index ending at `i`: a number alone
/// counts steps back.
pub open spec fn history_default_end(s: Seq<char>, start: int, i: int, cur: Option<HistoryIndV>) -> Result<(int, Option<HistoryIndV>), IndexFault> {
    if start < i {
        if cur is Some {
            Err(IndexFault::Unrelated(s.take(start), s.subrange(start, i)))
        } else {
            match parse_usize_spec(s.subrange(start, i)) {
                Some(v) => Ok((i, Some(HistoryIndV::Sub(Box::new(HistoryIndV::Current), v)))),
                None => Err(IndexFault::NotInt(s.subrange(start, i))),
            }
        }
    } else {
        Ok((i, cur))
    }
}

/// The result of an offset ending at `i`.
pub open spec fn history_offset_end(s: Seq<char>, start: int, neg: bool, i: int, cur: Option<HistoryIndV>) -> Result<(int, Option<HistoryIndV>), IndexFault> {
    if start < i {
        match parse_usize_spec(s.subrange(start, i)) {
            Some(o) => Ok((i, Some(history_stepped(neg, cur, o)))),
            None => Err(IndexFault::OffsetNotInt(s.subrange(start, i))),
        }
    } else {
        Ok((i, Some(history_stepped(neg, cur, 1))))
    }
}

/// The result when the input ends in state `st`.
pub open spec fn history_end(s: Seq<char>, st: HistoryScan, cur: Option<HistoryIndV>) -> Result<(int, Option<HistoryIndV>), IndexFault> {
    let n = s.len() as int;
    match st {
        HistoryScan::Default(start) => history_default_end(s, start, n, cur),
        HistoryScan::Absolute(start) => if cur is Some {
            Err(IndexFault::Unrelated(s.take(start - 1), s.subrange(start - 1, n)))
        } else {
            match parse_usize_spec(s.subrange(start, n)) {
                Some(v) => Ok((n, Some(HistoryIndV::Absolute(v)))),
                None => Err(IndexFault::NotInt(s.subrange(start, n))),
            }
        },
        HistoryScan::Offset(start, neg) => history_offset_end(s, start, neg, n, cur),
    }
}

/// The history index parser run from character `i` in state `st`, holding
/// the index `cur` parsed so far. An absolute index `*n` consumes the
/// character after its digits.
pub open spec fn history_from(s: Seq<char>, i: int, st: HistoryScan, cur: Option<HistoryIndV>) -> Result<(int, Option<HistoryIndV>), IndexFault>
    decreases s.len() - i,
{
    if i < 0 || i >= s.len() {
        history_end(s, st, cur)
    } else {
        let c = s[i];
        match st {
            HistoryScan::Default(start) => {
                if c == '*' || c == '.' || c == '$' {
                    if start != i {
                        Err(IndexFault::SpecialAfterStart(s.subrange(start, i), c))
                    } else if c == '*' {
                        history_from(s, i + 1, HistoryScan::Absolute(i + 1), cur)
                    } else if cur is Some {
                        Err(IndexFault::Unrelated(s.take(i), s.subrange(i, i + 1)))
                    } else {
                        history_from(s, i + 1, HistoryScan::Default(i + 1), Some(if c == '.' { HistoryIndV::Current } else { HistoryIndV::Last }))
                    }
                } else if c == '+' || c == '-' {
                    if start != i {
                        if cur is Some {
                            Err(IndexFault::Unrelated(s.take(start), s.subrange(start, i)))
                        } else {
                            match parse_usize_spec(s.subrange(start, i)) {
                                Some(v) => history_from(s, i + 1, HistoryScan::Offset(i + 1, c == '-'), Some(HistoryIndV::Sub(Box::new(HistoryIndV::Current), v))),
                                None => Err(IndexFault::NotInt(s.subrange(start, i))),
                            }
                        }
                    } else {
                        history_from(s, i + 1, HistoryScan::Offset(i + 1, c == '-'), cur)
                    }
                } else if is_digit(c) {
                    history_from(s, i + 1, st, cur)
                } else {
                    history_default_end(s, start, i, cur)
                }
            },
            HistoryScan::Absolute(start) => {
                if is_digit(c) {
                    history_from(s, i + 1, st, cur)
                } else if cur is Some {
                    Err(IndexFault::Unrelated(s.take(start - 1), s.subrange(start - 1, i + 1)))
                } else {
                    match parse_usize_spec(s.subrange(start, i)) {
                        Some(v) => history_from(s, i + 1, HistoryScan::Default(i + 1), Some(HistoryIndV::Absolute(v))),
                        None => Err(IndexFault::NotInt(s.subrange(start, i))),
                    }
                }
            },
            HistoryScan::Offset(start, neg) => {
                if c == '+' || c == '-' {
                    if start != i {
                        match parse_usize_spec(s.subrange(start, i)) {
                            Some(o) => history_from(s, i + 1, HistoryScan::Offset(i + 1, c == '-'), Some(history_stepped(neg, cur, o))),
                            None => Err(IndexFault::OffsetNotInt(s.subrange(start, i))),
                        }
                    } else {
                        history_from(s, i + 1, HistoryScan::Offset(i + 1, c == '-'), Some(history_stepped(neg, cur, 1)))
                    }
                } else if is_digit(c) {
                    history_from(s, i + 1, st, cur)
                } else {
                    history_offset_end(s, start, neg, i, cur)
                }
            },
        }
    }
}

/// What [`parse_history_index`] gives for `input`.
pub open spec fn parse_history_index_spec(input: Seq<char>) -> Result<(int, Option<HistoryIndV>), IndexFault> {
    history_from(trim_newlines(input), 0, HistoryScan::Default(0), None)
}

/// Whether error `e` reports fault `f` of a history index.
pub open spec fn history_fault_is(e: EdError, f: IndexFault) -> bool {
    match f {
        IndexFault::SpecialAfterStart(p, c) => e matches EdError::HistoryIndexSpecialAfterStart { prior_index, special_index }
            && prior_index@ == p && special_index == c,
        IndexFault::NotInt(t) => e matches EdError::HistoryIndexNotInt(x) && x@ == t,
        IndexFault::OffsetNotInt(t) => e matches EdError::HistoryOffsetNotInt(x) && x@ == t,
        IndexFault::Unrelated(p, u) => e matches EdError::HistoryIndicesUnrelated { prior_index, unrelated_index }
            && prior_index@ == p && unrelated_index@ == u,
        IndexFault::Unfinished(_) => false,
    }
}

/// Whether `r` is the outcome `spec` describes.
pub open spec fn history_outcome_is(r: EdResult<(usize, Option<HistoryInd>)>, spec: Result<(int, Option<HistoryIndV>), IndexFault>) -> bool {
    match r {
        Ok(p) => spec is Ok && p.0 == spec->Ok_0.0 && opt_history_ind_view(p.1) == spec->Ok_0.1,
        Err(e) => spec is Err && history_fault_is(e, spec->Err_0),
    }
}

#[derive(Clone, Copy)]
enum State {
    Default(usize),
    Absolute(usize),
    Offset(usize, bool),
}

spec fn scan_of(st: State) -> HistoryScan {
    match st {
        State::Default(a) => HistoryScan::Default(a as int),
        State::Absolute(a) => HistoryScan::Absolute(a as int),
        State::Offset(a, neg) => HistoryScan::Offset(a as int, neg),
    }
}

spec fn state_ok(st: State, i: int) -> bool {
    match st {
        State::Default(a) => a <= i,
        State::Absolute(a) => 1 <= a <= i,
        State::Offset(a, _) => a <= i,
    }
}

/// `cur` moved `offset` snapshots back (`neg`) or forward.
fn offset_ind(neg: bool, cur: Option<HistoryInd>, offset: usize) -> (r: HistoryInd)
    ensures
        history_ind_view(r) == history_stepped(neg, opt_history_ind_view(cur), offset),
{
    let base = match cur {
        Some(x) => x,
        None => HistoryInd::Current,
    };
    assert(history_ind_view(base) == or_current(opt_history_ind_view(cur)));
    if neg {
        let r = HistoryInd::Sub(Box::new(base), offset);
        assert(history_ind_view(r) == HistoryIndV::Sub(Box::new(history_ind_view(base)), offset));
        r
    } else {
        let r = HistoryInd::Add(Box::new(base), offset);
        assert(history_ind_view(r) == HistoryIndV::Add(Box::new(history_ind_view(base)), offset));
        r
    }
}

/// The index `v` steps back from the viewed snapshot.
fn steps_back(v: usize) -> (r: HistoryInd)
    ensures
        history_ind_view(r) == HistoryIndV::Sub(Box::new(HistoryIndV::Current), v),
{
    let current = HistoryInd::Current;
    assert(history_ind_view(current) == HistoryIndV::Current);
    let r = HistoryInd::Sub(Box::new(current), v);
    assert(history_ind_view(r) == HistoryIndV::Sub(Box::new(history_ind_view(current)), v));
    r
}

/// The outcome when a plain index ends at `i`.
fn default_result(input: &str, chars: &Vec<char>, start: usize, i: usize, cur: Option<HistoryInd>, Ghost(s): Ghost<Seq<char>>) -> (r: EdResult<(usize, Option<HistoryInd>)>)
    requires
        chars@ == input@,
        i <= s.len() <= input@.len(),
        forall|a: int, b: int| 0 <= a <= b <= s.len() ==> #[trigger] s.subrange(a, b) == input@.subrange(a, b),
    ensures
        history_outcome_is(r, history_default_end(s, start as int, i as int, opt_history_ind_view(cur))),
        r matches Ok(p) ==> p.0 == i,
{
    if start < i {
        if cur.is_some() {
            return Err(EdError::HistoryIndicesUnrelated {
                prior_index: text_of(input, 0, start),
                unrelated_index: text_of(input, start, i),
            });
        }
        assert(s.subrange(start as int, i as int) == chars@.subrange(start as int, i as int));
        match parse_usize(chars, start, i) {
            Some(v) => Ok((i, Some(steps_back(v)))),
            None => Err(EdError::HistoryIndexNotInt(text_of(input, start, i))),
        }
    } else {
        Ok((i, cur))
    }
}

/// The outcome when an offset ends at `i`.
fn offset_result(input: &str, chars: &Vec<char>, start: usize, neg: bool, i: usize, cur: Option<HistoryInd>, Ghost(s): Ghost<Seq<char>>) -> (r: EdResult<(usize, Option<HistoryInd>)>)
    requires
        chars@ == input@,
        i <= s.len() <= input@.len(),
        forall|a: int, b: int| 0 <= a <= b <= s.len() ==> #[trigger] s.subrange(a, b) == input@.subrange(a, b),
    ensures
        history_outcome_is(r, history_offset_end(s, start as int, neg, i as int, opt_history_ind_view(cur))),
        r matches Ok(p) ==> p.0 == i,
{
    let offset = if start < i {
        assert(s.subrange(start as int, i as int) == chars@.subrange(start as int, i as int));
        match parse_usize(chars, start, i) {
            Some(o) => o,
            None => {
                return Err(EdError::HistoryOffsetNotInt(text_of(input, start, i)));
            },
        }
    } else {
        1
    };
    Ok((i, Some(offset_ind(neg, cur, offset))))
}

/// [`parse_history_index`], with the position where the index ends counted
/// in characters.
pub(crate) fn parse_history_index_chars(input: &str) -> (r: EdResult<(usize, Option<HistoryInd>)>)
    ensures
        history_outcome_is(r, parse_history_index_spec(input@)),
        r matches Ok(p) ==> p.0 <= input@.len(),
{
    let chars = chars_of(input);
    let mut n = chars.len();
    assert(chars@.take(n as int) =~= chars@);
    while n > 0 && chars[n - 1] == '\n'
        invariant
            n <= chars@.len(),
            chars@ == input@,
            trim_newlines(input@) == trim_newlines(chars@.take(n as int)),
        decreases n,
    {
        assert(chars@.take(n as int).drop_last() =~= chars@.take(n - 1));
        n = n - 1;
    }
    let ghost s = chars@.take(n as int);
    assert(trim_newlines(s) == s);
    let ghost goal = parse_history_index_spec(input@);
    assert forall|a: int, b: int| 0 <= a <= b <= n implies #[trigger] s.subrange(a, b) == input@.subrange(a, b) by {
        assert(s.subrange(a, b) =~= input@.subrange(a, b));
    }
    let mut i: usize = 0;
    let mut st = State::Default(0);
    let mut cur: Option<HistoryInd> = None;
    while i < n
        invariant
            n <= chars@.len(),
            chars@ == input@,
            s == chars@.take(n as int),
            s.len() == n,
            forall|a: int, b: int| 0 <= a <= b <= n ==> #[trigger] s.subrange(a, b) == input@.subrange(a, b),
            i <= n,
            state_ok(st, i as int),
            history_from(s, i as int, scan_of(st), opt_history_ind_view(cur)) == goal,
            goal == parse_history_index_spec(input@),
        decreases n - i,
    {
        let c = char_at(&chars, i);
        assert(s[i as int] == c);
        match st {
            State::Default(start) => {
                if c == '*' || c == '.' || c == '$' {
                    if start != i {
                        return Err(EdError::HistoryIndexSpecialAfterStart {
                            prior_index: text_of(input, start, i),
                            special_index: c,
                        });
                    }
                    if c == '*' {
                        st = State::Absolute(i + 1);
                    } else {
                        if cur.is_some() {
                            return Err(EdError::HistoryIndicesUnrelated {
                                prior_index: text_of(input, 0, i),
                                unrelated_index: text_of(input, i, i + 1),
                            });
                        }
                        cur = Some(if c == '.' { HistoryInd::Current } else { HistoryInd::Last });
                        st = State::Default(i + 1);
                    }
                } else if c == '+' || c == '-' {
                    if start != i {
                        if cur.is_some() {
                            return Err(EdError::HistoryIndicesUnrelated {
                                prior_index: text_of(input, 0, start),
                                unrelated_index: text_of(input, start, i),
                            });
                        }
                        match parse_usize(&chars, start, i) {
                            Some(v) => {
                                cur = Some(steps_back(v));
                            },
                            None => {
                                return Err(EdError::HistoryIndexNotInt(text_of(input, start, i)));
                            },
                        }
                    }
                    st = State::Offset(i + 1, c == '-');
                } else if '0' <= c && c <= '9' {
                } else {
                    return default_result(input, &chars, start, i, cur, Ghost(s));
                }
            },
            State::Absolute(start) => {
                if '0' <= c && c <= '9' {
                } else {
                    if cur.is_some() {
                        return Err(EdError::HistoryIndicesUnrelated {
                            prior_index: text_of(input, 0, start - 1),
                            unrelated_index: text_of(input, start - 1, i + 1),
                        });
                    }
                    match parse_usize(&chars, start, i) {
                        Some(v) => {
                            cur = Some(HistoryInd::Absolute(v));
                        },
                        None => {
                            return Err(EdError::HistoryIndexNotInt(text_of(input, start, i)));
                        },
                    }
                    st = State::Default(i + 1);
                }
            },
            State::Offset(start, neg) => {
                if c == '+' || c == '-' {
                    let offset = if start != i {
                        match parse_usize(&chars, start, i) {
                            Some(o) => o,
                            None => {
                                return Err(EdError::HistoryOffsetNotInt(text_of(input, start, i)));
                            },
                        }
                    } else {
                        1
                    };
                    cur = Some(offset_ind(neg, cur, offset));
                    st = State::Offset(i + 1, c == '-');
                } else if '0' <= c && c <= '9' {
                } else {
                    return offset_result(input, &chars, start, neg, i, cur, Ghost(s));
                }
            },
        }
        i = i + 1;
    }
    match st {
        State::Default(start) => default_result(input, &chars, start, n, cur, Ghost(s)),
        State::Absolute(start) => {
            if cur.is_some() {
                return Err(EdError::HistoryIndicesUnrelated {
                    prior_index: text_of(input, 0, start - 1),
                    unrelated_index: text_of(input, start - 1, n),
                });
            }
            match parse_usize(&chars, start, n) {
                Some(v) => Ok((n, Some(HistoryInd::Absolute(v)))),
                None => Err(EdError::HistoryIndexNotInt(text_of(input, start, n))),
            }
        },
        State::Offset(start, neg) => offset_result(input, &chars, start, neg, n, cur, Ghost(s)),
    }
}

/// Parses the history index at the start of `input`: `.` (the viewed
/// snapshot), `$` (the last), `*n` (snapshot `n`) or a number of steps
/// back, each optionally followed by offsets such as `+2` or `-`. Returns
/// the byte offset in `input` where the index ends and the index, `None`
/// if there is none.
pub fn parse_history_index(input: &str) -> (r: EdResult<(usize, Option<HistoryInd>)>)
    ensures
        r is Ok <==> parse_history_index_spec(input@) is Ok,
        r matches Err(e) ==> history_fault_is(e, parse_history_index_spec(input@)->Err_0),
        r matches Ok(p) ==> p.0 == byte_position(input@, parse_history_index_spec(input@)->Ok_0.0)
            && opt_history_ind_view(p.1) == parse_history_index_spec(input@)->Ok_0.1,
{
    match parse_history_index_chars(input) {
        Ok((n, ind)) => Ok((byte_offset(input, n), ind)),
        Err(e) => Err(e),
    }
}

/// The snapshot index that `ind` denotes, with `current` the index `.`
/// stands for and `len` the number of snapshots.
pub open spec fn interpret_history_spec(ind: HistoryIndV, current: usize, len: usize) -> usize
    decreases ind,
{
    match ind {
        HistoryIndV::Current => current,
        HistoryIndV::Last => sat_sub(len, 1),
        HistoryIndV::Absolute(i) => i,
        HistoryIndV::Add(inner, o) => sat_add(interpret_history_spec(*inner, current, len), o),
        HistoryIndV::Sub(inner, o) => sat_sub(interpret_history_spec(*inner, current, len), o),
    }
}

/// Interprets a history index into a snapshot index, with `current_ind`
/// what `.` stands for. The result is not checked against the history.
pub fn interpret_history_index(state: &Ed, index: HistoryInd, current_ind: usize) -> (r: EdResult<usize>)
    ensures
        r == Ok::<usize, EdError>(interpret_history_spec(history_ind_view(index), current_ind, state.history.states().len() as usize)),
    decreases index,
{
    match index {
        HistoryInd::Current => Ok(current_ind),
        HistoryInd::Last => Ok(state.history.len().saturating_sub(1)),
        HistoryInd::Absolute(i) => Ok(i),
        HistoryInd::Add(inner, offset) => {
            match interpret_history_index(state, *inner, current_ind) {
                Ok(v) => Ok(v.saturating_add(offset)),
                Err(e) => Err(e),
            }
        },
        HistoryInd::Sub(inner, offset) => {
            match interpret_history_index(state, *inner, current_ind) {
                Ok(v) => Ok(v.saturating_sub(offset)),
                Err(e) => Err(e),
            }
        },
    }
}

} // verus!
