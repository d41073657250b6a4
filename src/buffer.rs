//! The document under processing: runs of text with a slot where each
//! formula element stood. A slot is written out as a placeholder token whose
//! text carries the task's index, and is later filled with a fragment.

use vstd::prelude::*;

use crate::text::{chars_of, decimal, find_first, lemma_decimal_injective, first_occurrence, is_first_occurrence,
    lemma_first_occurrence_unique, occurs_in, push_decimal};

verus! {

/// The mathematical model of one run of the document.
pub enum Piece {
    Text(Seq<char>),
    Slot(nat),
}

/// One run of the document: verbatim text, or the slot of a formula task.
pub enum Segment {
    Text(String),
    Slot(usize),
}

impl View for Segment {
    type V = Piece;

    open spec fn view(&self) -> Piece {
        match self {
            Segment::Text(t) => Piece::Text(t@),
            Segment::Slot(i) => Piece::Slot(*i as nat),
        }
    }
}

/// The placeholder token that stands for the slot of task `id`.
pub open spec fn placeholder(id: nat) -> Seq<char> {
    "__GLADST_FORMULA_PLACEHOLDER_"@ + decimal(id) + "__"@
}

/// Tasks with different indices have different placeholder tokens.
pub proof fn lemma_placeholders_distinct(i: nat, j: nat)
    requires
        i != j,
    ensures
        placeholder(i) != placeholder(j),
{
    let pre = "__GLADST_FORMULA_PLACEHOLDER_"@;
    let post = "__"@;
    if placeholder(i) == placeholder(j) {
        let a = placeholder(i);
        assert(a.len() == pre.len() + decimal(i).len() + post.len());
        assert(decimal(i).len() == decimal(j).len());
        assert(a.subrange(pre.len() as int, (pre.len() + decimal(i).len()) as int) =~= decimal(i));
        assert(placeholder(j).subrange(pre.len() as int, (pre.len() + decimal(j).len()) as int) =~= decimal(j));
        lemma_decimal_injective(i, j);
    }
}

pub open spec fn piece_text(p: Piece) -> Seq<char> {
    match p {
        Piece::Text(t) => t,
        Piece::Slot(i) => placeholder(i),
    }
}

/// The document text that the runs `ps` spell out.
pub open spec fn pieces_text(ps: Seq<Piece>) -> Seq<char>
    decreases ps.len(),
{
    if ps.len() == 0 {
        Seq::empty()
    } else {
        pieces_text(ps.drop_last()) + piece_text(ps.last())
    }
}

/// No two slots belong to the same task.
pub open spec fn slots_distinct(ps: Seq<Piece>) -> bool {
    forall|i: int, j: int|
        0 <= i < ps.len() && 0 <= j < ps.len() && i != j && ps[i] is Slot ==> ps[i] != ps[j]
}

/// Every slot belongs to a task below `bound`.
pub open spec fn slots_below(ps: Seq<Piece>, bound: nat) -> bool {
    forall|i: int| 0 <= i < ps.len() ==> match #[trigger] ps[i] {
        Piece::Slot(k) => k < bound,
        Piece::Text(_) => true,
    }
}

pub open spec fn has_slot(ps: Seq<Piece>, id: nat) -> bool {
    exists|i: int| 0 <= i < ps.len() && ps[i] == Piece::Slot(id)
}

/// The run may receive the slot for a text that `needle` spells.
pub open spec fn piece_holds(p: Piece, needle: Seq<char>) -> bool {
    match p {
        Piece::Text(t) => occurs_in(t, needle),
        Piece::Slot(_) => false,
    }
}

/// The first occurrence of `needle` inside a text run gives way to a slot
/// for task `id`; text across runs is never matched. Without an occurrence
/// the runs stay as they are.
pub open spec fn place(ps: Seq<Piece>, needle: Seq<char>, id: nat) -> Seq<Piece>
    decreases ps.len(),
{
    if ps.len() == 0 {
        ps
    } else if piece_holds(ps[0], needle) {
        let t = ps[0]->Text_0;
        let p = first_occurrence(t, needle);
        seq![
            Piece::Text(t.subrange(0, p)),
            Piece::Slot(id),
            Piece::Text(t.subrange(p + needle.len(), t.len() as int)),
        ] + ps.drop_first()
    } else {
        seq![ps[0]] + place(ps.drop_first(), needle, id)
    }
}

/// The slot of task `id`, if there is one, now holds `fragment` as text.
pub open spec fn filled(ps: Seq<Piece>, id: nat, fragment: Seq<char>) -> Seq<Piece> {
    ps.map_values(|p: Piece| if p == Piece::Slot(id) { Piece::Text(fragment) } else { p })
}

pub proof fn lemma_place_split(ps: Seq<Piece>, needle: Seq<char>, id: nat, i: int)
    requires
        0 <= i < ps.len(),
        forall|k: int| 0 <= k < i ==> !piece_holds(#[trigger] ps[k], needle),
        piece_holds(ps[i], needle),
    ensures
        place(ps, needle, id) == ps.subrange(0, i) + seq![
            Piece::Text(ps[i]->Text_0.subrange(0, first_occurrence(ps[i]->Text_0, needle))),
            Piece::Slot(id),
            Piece::Text(
                ps[i]->Text_0.subrange(
                    first_occurrence(ps[i]->Text_0, needle) + needle.len(),
                    ps[i]->Text_0.len() as int,
                ),
            ),
        ] + ps.subrange(i + 1, ps.len() as int),
    decreases i,
{
    if i == 0 {
        assert(ps.subrange(0, 0) =~= Seq::<Piece>::empty());
        assert(ps.drop_first() =~= ps.subrange(1, ps.len() as int));
    } else {
        assert(!piece_holds(ps[0], needle));
        let rest = ps.drop_first();
        assert forall|k: int| 0 <= k < i - 1 implies !piece_holds(#[trigger] rest[k], needle) by {
            assert(rest[k] == ps[k + 1]);
        }
        lemma_place_split(rest, needle, id, i - 1);
        assert(rest.subrange(0, i - 1) =~= ps.subrange(1, i));
        assert(rest.subrange(i, rest.len() as int) =~= ps.subrange(i + 1, ps.len() as int));
        assert(seq![ps[0]] + ps.subrange(1, i) =~= ps.subrange(0, i));
        let mid = seq![
            Piece::Text(ps[i]->Text_0.subrange(0, first_occurrence(ps[i]->Text_0, needle))),
            Piece::Slot(id),
            Piece::Text(
                ps[i]->Text_0.subrange(
                    first_occurrence(ps[i]->Text_0, needle) + needle.len(),
                    ps[i]->Text_0.len() as int,
                ),
            ),
        ];
        assert(seq![ps[0]] + (ps.subrange(1, i) + mid + ps.subrange(i + 1, ps.len() as int))
            =~= ps.subrange(0, i) + mid + ps.subrange(i + 1, ps.len() as int));
    }
}

pub proof fn lemma_place_absent(ps: Seq<Piece>, needle: Seq<char>, id: nat)
    requires
        forall|k: int| 0 <= k < ps.len() ==> !piece_holds(#[trigger] ps[k], needle),
    ensures
        place(ps, needle, id) == ps,
    decreases ps.len(),
{
    if ps.len() > 0 {
        assert(!piece_holds(ps[0], needle));
        let rest = ps.drop_first();
        assert forall|k: int| 0 <= k < rest.len() implies !piece_holds(#[trigger] rest[k], needle) by {
            assert(rest[k] == ps[k + 1]);
        }
        lemma_place_absent(rest, needle, id);
        assert(seq![ps[0]] + rest =~= ps);
    }
}

/// The runs that scanning a document for elements with serialized forms
/// `htmls`, in order, leaves: element `i` gets the slot of task `i`.
pub open spec fn scanned_pieces(document: Seq<char>, htmls: Seq<Seq<char>>) -> Seq<Piece>
    decreases htmls.len(),
{
    if htmls.len() == 0 {
        seq![Piece::Text(document)]
    } else {
        place(scanned_pieces(document, htmls.drop_last()), htmls.last(), (htmls.len() - 1) as nat)
    }
}

pub proof fn lemma_place_slots_below(ps: Seq<Piece>, needle: Seq<char>, id: nat)
    requires
        slots_below(ps, id),
    ensures
        slots_below(place(ps, needle, id), id + 1),
    decreases ps.len(),
{
    if ps.len() > 0 {
        let rest = ps.drop_first();
        assert(slots_below(rest, id)) by {
            assert forall|i: int| 0 <= i < rest.len() implies match #[trigger] rest[i] {
                Piece::Slot(k) => k < id,
                Piece::Text(_) => true,
            } by {
                assert(rest[i] == ps[i + 1]);
            }
        }
        lemma_place_slots_below(rest, needle, id);
        let r = place(ps, needle, id);
        assert(match ps[0] {
            Piece::Slot(k) => k < id,
            Piece::Text(_) => true,
        });
        if piece_holds(ps[0], needle) {
            assert forall|i: int| 0 <= i < r.len() implies match #[trigger] r[i] {
                Piece::Slot(k) => k < id + 1,
                Piece::Text(_) => true,
            } by {
                if i >= 3 {
                    assert(r[i] == rest[i - 3]);
                }
            }
        } else {
            let tail = place(rest, needle, id);
            assert forall|i: int| 0 <= i < r.len() implies match #[trigger] r[i] {
                Piece::Slot(k) => k < id + 1,
                Piece::Text(_) => true,
            } by {
                if i >= 1 {
                    assert(r[i] == tail[i - 1]);
                }
            }
        }
    }
}

pub proof fn lemma_pieces_text_push(ps: Seq<Piece>, p: Piece)
    ensures
        pieces_text(ps.push(p)) == pieces_text(ps) + piece_text(p),
{
    assert(ps.push(p).drop_last() =~= ps);
}

/// The document being assembled.
pub struct DocumentBuffer {
    segments: Vec<Segment>,
}

impl View for DocumentBuffer {
    type V = Seq<Piece>;

    closed spec fn view(&self) -> Seq<Piece> {
        self.segments@.map_values(|s: Segment| s@)
    }
}

impl DocumentBuffer {
    pub open spec fn wf(&self) -> bool {
        slots_distinct(self@)
    }

    /// A buffer that holds `text` verbatim and no slot.
    pub fn from_text(text: String) -> (r: DocumentBuffer)
        ensures
            r@ == seq![Piece::Text(text@)],
            r.wf(),
    {
        let mut segments: Vec<Segment> = Vec::new();
        segments.push(Segment::Text(text));
        let r = DocumentBuffer { segments };
        assert(r@ =~= seq![Piece::Text(text@)]);
        r
    }

    /// Whether the slot of task `id` is still open.
    pub fn has_slot(&self, id: usize) -> (r: bool)
        ensures
            r == has_slot(self@, id as nat),
    {
        let mut i: usize = 0;
        while i < self.segments.len()
            invariant
                forall|k: int| 0 <= k < i ==> self@[k] != Piece::Slot(id as nat),
            decreases self.segments.len() - i,
        {
            match &self.segments[i] {
                Segment::Slot(k) => {
                    if *k == id {
                        assert(self@[i as int] == Piece::Slot(id as nat));
                        return true;
                    }
                },
                Segment::Text(_) => {},
            }
            assert(self@[i as int] != Piece::Slot(id as nat));
            i = i + 1;
        }
        false
    }

    /// The number of slots still open.
    pub fn open_slots(&self) -> (r: usize)
        ensures
            r <= self@.len(),
            r == 0 <==> forall|i: int| 0 <= i < self@.len() ==> self@[i] is Text,
    {
        let mut count: usize = 0;
        let mut i: usize = 0;
        while i < self.segments.len()
            invariant
                count <= i <= self.segments@.len(),
                count == 0 <==> forall|k: int| 0 <= k < i ==> self@[k] is Text,
            decreases self.segments.len() - i,
        {
            assert(self@[i as int] == self.segments@[i as int]@);
            match &self.segments[i] {
                Segment::Slot(_) => {
                    count = count + 1;
                },
                Segment::Text(_) => {},
            }
            i = i + 1;
        }
        count
    }

    /// The document text, each open slot written as its placeholder token.
    pub fn text(&self) -> (r: String)
        ensures
            r@ == pieces_text(self@),
    {
        let mut out = String::new();
        let mut i: usize = 0;
        while i < self.segments.len()
            invariant
                i <= self.segments@.len(),
                out@ == pieces_text(self@.subrange(0, i as int)),
            decreases self.segments.len() - i,
        {
            proof {
                assert(self@.subrange(0, i + 1) =~= self@.subrange(0, i as int).push(self@[i as int]));
                lemma_pieces_text_push(self@.subrange(0, i as int), self@[i as int]);
            }
            match &self.segments[i] {
                Segment::Text(t) => {
                    out.append(t.as_str());
                },
                Segment::Slot(k) => {
                    out.append("__GLADST_FORMULA_PLACEHOLDER_");
                    push_decimal(&mut out, *k as u64);
                    out.append("__");
                },
            }
            i = i + 1;
        }
        assert(self@.subrange(0, self@.len() as int) =~= self@);
        out
    }

    /// Replaces the slot of task `id`, if it is open, by `fragment`.
    pub fn fill(&mut self, id: usize, fragment: &str)
        requires
            old(self).wf(),
        ensures
            final(self)@ == filled(old(self)@, id as nat, fragment@),
            final(self).wf(),
    {
        let ghost before = self@;
        let mut i: usize = 0;
        while i < self.segments.len()
            invariant
                i <= self.segments@.len(),
                slots_distinct(before),
                self.segments@.len() == before.len(),
                forall|k: int| 0 <= k < i ==> self@[k] == filled(before, id as nat, fragment@)[k],
                forall|k: int| i <= k < before.len() ==> self@[k] == before[k],
            decreases self.segments.len() - i,
        {
            assert(self@[i as int] == self.segments@[i as int]@);
            let hit = match &self.segments[i] {
                Segment::Slot(k) => *k == id,
                Segment::Text(_) => false,
            };
            let ghost prev = self@;
            if hit {
                self.segments.set(i, Segment::Text(String::from_str(fragment)));
            }
            assert forall|k: int| 0 <= k < self.segments@.len() && k != i implies self@[k] == prev[k] by {}
            assert(self@[i as int] == filled(before, id as nat, fragment@)[i as int]);
            assert forall|k: int| 0 <= k < i + 1 implies self@[k] == filled(
                before,
                id as nat,
                fragment@,
            )[k] by {
                if k < i {
                    assert(prev[k] == filled(before, id as nat, fragment@)[k]);
                }
            }
            i = i + 1;
        }
        assert(self@ =~= filled(before, id as nat, fragment@));
        assert forall|a: int, b: int|
            0 <= a < self@.len() && 0 <= b < self@.len() && a != b && self@[a] is Slot
            implies self@[a] != self@[b] by {
            assert(before[a] == self@[a]);
            if before[b] == Piece::Slot(id as nat) {
                assert(self@[b] is Text);
            } else {
                assert(self@[b] == before[b]);
            }
        }
    }

    /// The first text run that holds `needle`, with the text before and after
    /// its first occurrence there.
    fn find_holder(&self, needle: &Vec<char>) -> (r: Option<(usize, String, String)>)
        ensures
            match r {
                Some((i, pre, post)) => {
                    &&& 0 <= i < self@.len()
                    &&& forall|k: int| 0 <= k < i ==> !piece_holds(#[trigger] self@[k], needle@)
                    &&& piece_holds(self@[i as int], needle@)
                    &&& pre@ == self@[i as int]->Text_0.subrange(
                        0,
                        first_occurrence(self@[i as int]->Text_0, needle@),
                    )
                    &&& post@ == self@[i as int]->Text_0.subrange(
                        first_occurrence(self@[i as int]->Text_0, needle@) + needle@.len(),
                        self@[i as int]->Text_0.len() as int,
                    )
                },
                None => forall|k: int| 0 <= k < self@.len() ==> !piece_holds(#[trigger] self@[k], needle@),
            },
    {
        let mut i: usize = 0;
        while i < self.segments.len()
            invariant
                i <= self.segments@.len(),
                forall|k: int| 0 <= k < i ==> !piece_holds(#[trigger] self@[k], needle@),
            decreases self.segments.len() - i,
        {
            assert(self@[i as int] == self.segments@[i as int]@);
            match &self.segments[i] {
                Segment::Text(t) => {
                    let hay = chars_of(t.as_str());
                    match find_first(&hay, needle) {
                        Some(p) => {
                            proof {
                                lemma_first_occurrence_unique(t@, needle@, p as int);
                            }
                            let n = hay.len();
                            let pre = String::from_str(t.as_str().substring_char(0, p));
                            let post = String::from_str(
                                t.as_str().substring_char(p + needle.len(), n),
                            );
                            return Some((i, pre, post));
                        },
                        None => {},
                    }
                },
                Segment::Slot(_) => {},
            }
            i = i + 1;
        }
        None
    }

    /// Gives the first occurrence of `needle` inside a text run to a slot for
    /// task `id`.
    pub fn place(&mut self, needle: &Vec<char>, id: usize)
        requires
            old(self).wf(),
            !has_slot(old(self)@, id as nat),
        ensures
            final(self)@ == place(old(self)@, needle@, id as nat),
            final(self).wf(),
    {
        let ghost before = self@;
        match self.find_holder(needle) {
            Some((i, pre, post)) => {
                proof {
                    lemma_place_split(before, needle@, id as nat, i as int);
                }
                let n0 = self.segments.len();
                assert(i < n0);
                self.segments.set(i, Segment::Text(pre));
                self.segments.insert(i + 1, Segment::Slot(id));
                let n = self.segments.len();
                assert(i + 2 <= n);
                self.segments.insert(i + 2, Segment::Text(post));
                proof {
                    let target = place(before, needle@, id as nat);
                    assert(self@.len() == target.len());
                    assert forall|k: int| 0 <= k < self@.len() implies self@[k] == target[k] by {
                        if k < i {
                            assert(self@[k] == before[k]);
                        } else if k > i + 2 {
                            assert(self@[k] == before[k - 2]);
                        }
                    }
                    assert(self@ =~= target);
                    assert(self@[i as int] is Text);
                    assert(self@[i + 1] == Piece::Slot(id as nat));
                    assert(self@[i + 2] is Text);
                    assert forall|a: int, b: int|
                        0 <= a < self@.len() && 0 <= b < self@.len() && a != b
                            && self@[a] is Slot implies self@[a] != self@[b] by {
                        let ia = if a < i { a } else if a > i + 2 { a - 2 } else { -1 };
                        let ib = if b < i { b } else if b > i + 2 { b - 2 } else { -1 };
                        if ia >= 0 {
                            assert(self@[a] == before[ia]);
                            if before[ia] == Piece::Slot(id as nat) {
                                assert(has_slot(before, id as nat));
                            }
                        }
                        if ib >= 0 {
                            assert(self@[b] == before[ib]);
                            if before[ib] == Piece::Slot(id as nat) {
                                assert(has_slot(before, id as nat));
                            }
                        }
                        if ia >= 0 && ib >= 0 {
                            assert(ia != ib);
                            assert(before[ia] is Slot);
                            assert(before[ia] != before[ib]);
                        }
                    }
                }
            },
            None => {
                proof {
                    lemma_place_absent(before, needle@, id as nat);
                }
            },
        }
    }
}

} // verus!
