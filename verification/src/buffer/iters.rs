//! Iterators over the lines of a [`crate::buffer::buffer::Buffer`]. They
//! hand out the borrowed text of each line in order.
use vstd::prelude::*;

verus! {

/// The iterator returned by `Buffer::get_lines`: the texts of the selected
/// lines, in order.
pub struct LinesIter<'a> {
    lines: Vec<&'a str>,
    pos: usize,
}

impl<'a> View for LinesIter<'a> {
    type V = Seq<Seq<char>>;

    /// The texts not yet handed out.
    closed spec fn view(&self) -> Seq<Seq<char>> {
        self.lines@.subrange(self.pos as int, self.lines@.len() as int).map_values(|s: &str| s@)
    }
}

impl<'a> LinesIter<'a> {
    #[verifier::type_invariant]
    spec fn inv(&self) -> bool {
        self.pos <= self.lines@.len()
    }

    /// An iterator over the given texts.
    pub fn new(lines: Vec<&'a str>) -> (it: LinesIter<'a>)
        ensures
            it@ == lines@.map_values(|s: &str| s@),
    {
        let it = LinesIter { lines, pos: 0 };
        assert(it.lines@.subrange(0, it.lines@.len() as int) =~= it.lines@);
        it
    }

    /// The next text, if any.
    pub fn next(&mut self) -> (r: Option<&'a str>)
        ensures
            old(self)@.len() == 0 ==> r is None && final(self)@ == old(self)@,
            old(self)@.len() > 0 ==> (r matches Some(s) && s@ == old(self)@[0]
                && final(self)@ == old(self)@.drop_first()),
    {
        proof {
            use_type_invariant(&*self);
        }
        if self.pos < self.lines.len() {
            let s = self.lines[self.pos];
            self.pos = self.pos + 1;
            assert(self@ =~= old(self)@.drop_first());
            Some(s)
        } else {
            None
        }
    }

    /// All texts not yet handed out, in order.
    pub fn collect_all(self) -> (v: Vec<&'a str>)
        ensures
            v@.map_values(|s: &str| s@) == self@,
    {
        let mut it = self;
        proof {
            use_type_invariant(&it);
        }
        let mut v: Vec<&'a str> = Vec::new();
        let ghost start = it@;
        while it.pos < it.lines.len()
            invariant
                it.pos <= it.lines@.len(),
                v@.map_values(|s: &str| s@) + it@ == start,
            decreases it.lines@.len() - it.pos,
        {
            let ghost before = it@;
            let s = it.lines[it.pos];
            it.pos = it.pos + 1;
            v.push(s);
            assert(it@ =~= before.drop_first());
            assert(v@.map_values(|s: &str| s@) + it@ =~= start);
        }
        assert(it@ =~= Seq::<Seq<char>>::empty());
        assert(v@.map_values(|s: &str| s@) =~= start);
        v
    }
}

/// The iterator returned by `Buffer::get_tagged_lines`: tag and text of the
/// selected lines, in order.
pub struct TaggedLinesIter<'a> {
    lines: Vec<(char, &'a str)>,
    pos: usize,
}

impl<'a> View for TaggedLinesIter<'a> {
    type V = Seq<(char, Seq<char>)>;

    closed spec fn view(&self) -> Seq<(char, Seq<char>)> {
        self.lines@.subrange(self.pos as int, self.lines@.len() as int).map_values(
            |l: (char, &str)| (l.0, l.1@),
        )
    }
}

impl<'a> TaggedLinesIter<'a> {
    #[verifier::type_invariant]
    spec fn inv(&self) -> bool {
        self.pos <= self.lines@.len()
    }

    /// An iterator over the given tagged texts.
    pub fn new(lines: Vec<(char, &'a str)>) -> (it: TaggedLinesIter<'a>)
        ensures
            it@ == lines@.map_values(|l: (char, &str)| (l.0, l.1@)),
    {
        let it = TaggedLinesIter { lines, pos: 0 };
        assert(it.lines@.subrange(0, it.lines@.len() as int) =~= it.lines@);
        it
    }

    /// The next tagged text, if any.
    pub fn next(&mut self) -> (r: Option<(char, &'a str)>)
        ensures
            old(self)@.len() == 0 ==> r is None && final(self)@ == old(self)@,
            old(self)@.len() > 0 ==> (r matches Some(l) && (l.0, l.1@) == old(self)@[0]
                && final(self)@ == old(self)@.drop_first()),
    {
        proof {
            use_type_invariant(&*self);
        }
        if self.pos < self.lines.len() {
            let l = self.lines[self.pos];
            self.pos = self.pos + 1;
            assert(self@ =~= old(self)@.drop_first());
            Some(l)
        } else {
            None
        }
    }
}

} // verus!
