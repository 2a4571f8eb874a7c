//! The parts of a path, by which paths are told apart and put in order.
use vstd::prelude::*;
use vstd::string::*;

use crate::order::{
    order_of, text_lt, text_order_irreflexive, text_order_total, text_order_transitive, TextOrder,
};
use crate::ordered_map::OrderedKey;
use crate::text::{chars_of, same_text, texts};

verus! {

/// A part of a path: the root, the directory at hand at its start, a step up, or a name.
#[derive(Debug, PartialEq, Eq)]
pub enum PathPart {
    Root,
    Here,
    Up,
    Name(String),
}

/// What a [`PathPart`] says.
pub enum Part {
    Root,
    Here,
    Up,
    Name(Seq<char>),
}

impl View for PathPart {
    type V = Part;

    open spec fn view(&self) -> Part {
        match *self {
            PathPart::Root => Part::Root,
            PathPart::Here => Part::Here,
            PathPart::Up => Part::Up,
            PathPart::Name(name) => Part::Name(name@),
        }
    }
}

/// The texts between the slashes of a path.
pub open spec fn pieces(path: Seq<char>) -> Seq<Seq<char>>
    decreases path.len(),
{
    if path.len() == 0 {
        seq![Seq::empty()]
    } else {
        let before = pieces(path.drop_last());
        if path.last() == '/' {
            before.push(Seq::empty())
        } else {
            before.drop_last().push(before.last().push(path.last()))
        }
    }
}

/// The part that a piece stands for: an empty piece and a `.` say nothing behind the first, and an
/// empty first piece is the root where a slash follows it.
pub open spec fn part_at(pieces: Seq<Seq<char>>, i: int) -> Option<Part> {
    if pieces[i].len() == 0 {
        if i == 0 && pieces.len() > 1 {
            Some(Part::Root)
        } else {
            None
        }
    } else if pieces[i] == "."@ {
        if i == 0 {
            Some(Part::Here)
        } else {
            None
        }
    } else if pieces[i] == ".."@ {
        Some(Part::Up)
    } else {
        Some(Part::Name(pieces[i]))
    }
}

/// The parts that the first `n` pieces stand for.
pub open spec fn parts_among(pieces: Seq<Seq<char>>, n: nat) -> Seq<Part>
    decreases n,
{
    if n == 0 || n > pieces.len() {
        Seq::empty()
    } else {
        let before = parts_among(pieces, (n - 1) as nat);
        match part_at(pieces, n - 1) {
            Some(part) => before.push(part),
            None => before,
        }
    }
}

/// The parts of a path.
pub open spec fn path_parts(path: Seq<char>) -> Seq<Part> {
    parts_among(pieces(path), pieces(path).len())
}

/// The rank of a part among the kinds of parts.
pub open spec fn part_rank(part: Part) -> int {
    match part {
        Part::Root => 0,
        Part::Here => 1,
        Part::Up => 2,
        Part::Name(_) => 3,
    }
}

/// Whether one part comes before another: the root first, then the directory at hand, then a step
/// up, then names in the order of texts.
pub open spec fn part_before(a: Part, b: Part) -> bool {
    match (a, b) {
        (Part::Name(x), Part::Name(y)) => text_lt(x, y),
        _ => part_rank(a) < part_rank(b),
    }
}

/// Whether one list of parts comes before another: at the first difference its part comes before, or
/// it ends.
pub open spec fn parts_before(a: Seq<Part>, b: Seq<Part>) -> bool
    decreases a.len(),
{
    if b.len() == 0 {
        false
    } else if a.len() == 0 {
        true
    } else if a[0] != b[0] {
        part_before(a[0], b[0])
    } else {
        parts_before(a.skip(1), b.skip(1))
    }
}

proof fn lemma_parts_irreflexive(a: Seq<Part>)
    ensures
        !parts_before(a, a),
    decreases a.len(),
{
    if a.len() > 0 {
        lemma_parts_irreflexive(a.skip(1));
    }
}

proof fn lemma_part_transitive(a: Part, b: Part, c: Part)
    requires
        part_before(a, b),
        part_before(b, c),
    ensures
        part_before(a, c),
        a != c,
{
    if a is Name && b is Name && c is Name {
        text_order_transitive(a->Name_0, b->Name_0, c->Name_0);
        text_order_irreflexive(a->Name_0);
    }
}

proof fn lemma_parts_transitive(a: Seq<Part>, b: Seq<Part>, c: Seq<Part>)
    requires
        parts_before(a, b),
        parts_before(b, c),
    ensures
        parts_before(a, c),
    decreases a.len(),
{
    if a.len() > 0 {
        if a[0] == b[0] && b[0] == c[0] {
            lemma_parts_transitive(a.skip(1), b.skip(1), c.skip(1));
        } else if a[0] != b[0] && b[0] != c[0] {
            lemma_part_transitive(a[0], b[0], c[0]);
        }
    }
}

/// Of two different lists of parts exactly one comes before the other.
pub proof fn parts_order_total(a: Seq<Part>, b: Seq<Part>)
    ensures
        a != b ==> (parts_before(a, b) != parts_before(b, a)),
        !parts_before(a, a),
    decreases a.len(),
{
    lemma_parts_irreflexive(a);
    if a.len() == 0 {
        if b.len() == 0 {
            assert(a =~= b);
        }
    } else if b.len() > 0 {
        if a[0] == b[0] {
            parts_order_total(a.skip(1), b.skip(1));
            if a.skip(1) == b.skip(1) {
                assert(a =~= seq![a[0]] + a.skip(1));
                assert(b =~= seq![b[0]] + b.skip(1));
            }
        } else if a[0] is Name && b[0] is Name {
            text_order_total(a[0]->Name_0, b[0]->Name_0);
        }
    }
}

/// A path as it stands among other paths.
#[derive(Debug, PartialEq, Eq)]
pub struct PathKey {
    parts: Vec<PathPart>,
}

fn part_order(a: &PathPart, b: &PathPart) -> (order: TextOrder)
    ensures
        match order {
            TextOrder::Before => part_before(a@, b@) && a@ != b@,
            TextOrder::Same => a@ == b@,
            TextOrder::After => part_before(b@, a@) && a@ != b@,
        },
{
    match (a, b) {
        (PathPart::Name(x), PathPart::Name(y)) => {
            proof {
                text_order_total(x@, y@);
            }
            order_of(x.as_str(), y.as_str())
        },
        (PathPart::Root, PathPart::Root) => TextOrder::Same,
        (PathPart::Here, PathPart::Here) => TextOrder::Same,
        (PathPart::Up, PathPart::Up) => TextOrder::Same,
        (PathPart::Root, _) => TextOrder::Before,
        (_, PathPart::Root) => TextOrder::After,
        (PathPart::Here, _) => TextOrder::Before,
        (_, PathPart::Here) => TextOrder::After,
        (PathPart::Up, _) => TextOrder::Before,
        (_, PathPart::Up) => TextOrder::After,
    }
}

impl OrderedKey for PathKey {
    type Said = Seq<Part>;

    closed spec fn said(&self) -> Seq<Part> {
        self.parts@.map_values(|part: PathPart| part@)
    }

    open spec fn before(a: Seq<Part>, b: Seq<Part>) -> bool {
        parts_before(a, b)
    }

    proof fn irreflexive(a: Seq<Part>) {
        lemma_parts_irreflexive(a);
    }

    proof fn transitive(a: Seq<Part>, b: Seq<Part>, c: Seq<Part>) {
        lemma_parts_transitive(a, b, c);
    }

    proof fn total(a: Seq<Part>, b: Seq<Part>) {
        parts_order_total(a, b);
    }

    fn stands_to(&self, other: &PathKey) -> (order: TextOrder) {
        let ghost left = self.said();
        let ghost right = other.said();
        let mut i: usize = 0;
        proof {
            assert(left.skip(0) =~= left);
            assert(right.skip(0) =~= right);
        }
        while i < self.parts.len() && i < other.parts.len()
            invariant
                left == self.parts@.map_values(|part: PathPart| part@),
                right == other.parts@.map_values(|part: PathPart| part@),
                left == self.said(),
                right == other.said(),
                i <= left.len(),
                i <= right.len(),
                left.take(i as int) == right.take(i as int),
                parts_before(left, right) == parts_before(
                    left.skip(i as int),
                    right.skip(i as int),
                ),
                parts_before(right, left) == parts_before(
                    right.skip(i as int),
                    left.skip(i as int),
                ),
            decreases left.len() - i,
        {
            proof {
                assert(left.skip(i as int)[0] == left[i as int]);
                assert(right.skip(i as int)[0] == right[i as int]);
                assert(left.skip(i as int).skip(1) =~= left.skip(i + 1));
                assert(right.skip(i as int).skip(1) =~= right.skip(i + 1));
            }
            match part_order(&self.parts[i], &other.parts[i]) {
                TextOrder::Before => {
                    return TextOrder::Before;
                },
                TextOrder::After => {
                    return TextOrder::After;
                },
                TextOrder::Same => {},
            }
            proof {
                assert(left.take(i + 1) =~= left.take(i as int).push(left[i as int]));
                assert(right.take(i + 1) =~= right.take(i as int).push(right[i as int]));
            }
            i = i + 1;
        }
        if self.parts.len() == other.parts.len() {
            proof {
                assert(left.take(i as int) =~= left);
                assert(right.take(i as int) =~= right);
            }
            TextOrder::Same
        } else if self.parts.len() < other.parts.len() {
            TextOrder::Before
        } else {
            TextOrder::After
        }
    }
}

fn split_pieces(path: &str) -> (list: Vec<String>)
    ensures
        texts(list@) == pieces(path@),
        list@.len() > 0,
{
    let chars = chars_of(path);
    let mut list: Vec<String> = Vec::new();
    let mut last = String::new();
    let mut i: usize = 0;
    proof {
        assert(texts(list@).push(last@) =~= pieces(chars@.take(0)));
    }
    while i < chars.len()
        invariant
            i <= chars@.len(),
            texts(list@).push(last@) == pieces(chars@.take(i as int)),
        decreases chars@.len() - i,
    {
        let ghost before = texts(list@);
        let ghost piece = last@;
        proof {
            assert(chars@.take(i + 1).drop_last() =~= chars@.take(i as int));
            assert(chars@.take(i + 1).last() == chars@[i as int]);
            assert(before.push(piece).drop_last() =~= before);
            assert(before.push(piece).last() == piece);
        }
        if chars[i] == '/' {
            list.push(last);
            last = String::new();
            proof {
                assert(texts(list@) =~= before.push(piece));
                assert(last@ =~= Seq::<char>::empty());
            }
        } else {
            last.push(chars[i]);
        }
        i = i + 1;
    }
    proof {
        assert(chars@.take(i as int) =~= chars@);
    }
    let ghost before = texts(list@);
    list.push(last);
    proof {
        assert(texts(list@) =~= before.push(last@));
    }
    list
}

/// A path as it stands among other paths.
pub fn path_key(path: &str) -> (key: PathKey)
    ensures
        key.said() == path_parts(path@),
{
    let list = split_pieces(path);
    let ghost all = texts(list@);
    let mut parts: Vec<PathPart> = Vec::new();
    let mut i: usize = 0;
    proof {
        assert(parts@.map_values(|part: PathPart| part@) =~= parts_among(all, 0));
    }
    while i < list.len()
        invariant
            i <= list@.len(),
            all == texts(list@),
            all.len() == list@.len(),
            parts@.map_values(|part: PathPart| part@) == parts_among(all, i as nat),
        decreases list@.len() - i,
    {
        let ghost before = parts@;
        let piece = list[i].as_str();
        proof {
            assert(all[i as int] == list@[i as int]@);
            reveal_strlit(".");
            reveal_strlit("..");
            reveal_strlit("");
        }
        if same_text(piece, "") {
            if i == 0 && list.len() > 1 {
                parts.push(PathPart::Root);
            }
        } else if same_text(piece, ".") {
            if i == 0 {
                parts.push(PathPart::Here);
            }
        } else if same_text(piece, "..") {
            parts.push(PathPart::Up);
        } else {
            parts.push(PathPart::Name(list[i].clone()));
        }
        i = i + 1;
        proof {
            assert(piece@.len() == 0 <==> piece@ =~= ""@);
            match part_at(all, i - 1) {
                Some(part) => {
                    assert(parts@.map_values(|part: PathPart| part@) =~= before.map_values(
                        |part: PathPart| part@,
                    ).push(part));
                },
                None => {
                    assert(parts@ == before);
                },
            }
        }
    }
    PathKey { parts }
}

/// Whether two paths have the same parts.
pub fn same_path(a: &str, b: &str) -> (same: bool)
    ensures
        same == (path_parts(a@) == path_parts(b@)),
{
    proof {
        lemma_parts_irreflexive(path_parts(a@));
    }
    path_key(a).stands_to(&path_key(b)) == TextOrder::Same
}

} // verus!
