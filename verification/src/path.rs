//! Paths: the names of a node's ancestors and its own, each behind a slash.

use vstd::prelude::*;
use vstd::string::StrSliceExecFns;

verus! {

/// A node's name is not empty and holds no slash.
pub open spec fn valid_name(name: Seq<char>) -> bool {
    name.len() > 0 && forall|i: int| 0 <= i < name.len() ==> name[i] != '/'
}

/// `text` cut at each of its slashes: one piece more than it has slashes.
pub open spec fn pieces(text: Seq<char>) -> Seq<Seq<char>>
    decreases text.len(),
{
    if text.len() == 0 {
        seq![Seq::<char>::empty()]
    } else {
        let before = pieces(text.drop_last());
        if text.last() == '/' {
            before.push(Seq::<char>::empty())
        } else {
            before.drop_last().push(before.last().push(text.last()))
        }
    }
}

/// The segments in a row, with a slash between each two.
pub open spec fn glued(segments: Seq<Seq<char>>) -> Seq<char>
    decreases segments.len(),
{
    if segments.len() == 0 {
        Seq::<char>::empty()
    } else if segments.len() == 1 {
        segments[0]
    } else {
        glued(segments.drop_last()) + seq!['/'] + segments.last()
    }
}

/// The path that the segments spell: a slash, then the segments with a
/// slash between each two. No segments spell the root, `/`.
pub open spec fn join_path(segments: Seq<Seq<char>>) -> Seq<char> {
    seq!['/'] + glued(segments)
}

/// The segments of a path. A path begins with a slash; `/` alone has no
/// segments; any other path is cut at the slashes behind the first.
pub open spec fn split_path(path: Seq<char>) -> Option<Seq<Seq<char>>> {
    if path.len() == 0 || path[0] != '/' {
        None
    } else if path.len() == 1 {
        Some(Seq::<Seq<char>>::empty())
    } else {
        Some(pieces(path.skip(1)))
    }
}

/// The texts of a row of strings.
pub open spec fn texts(names: Seq<String>) -> Seq<Seq<char>> {
    names.map_values(|s: String| s@)
}

/// Any text has at least one piece.
pub proof fn lemma_pieces_some(text: Seq<char>)
    ensures
        pieces(text).len() >= 1,
    decreases text.len(),
{
    if text.len() > 0 {
        lemma_pieces_some(text.drop_last());
    }
}

/// Text without a slash, put behind other text, lengthens its last piece.
pub proof fn lemma_pieces_extend(text: Seq<char>, tail: Seq<char>)
    requires
        forall|i: int| 0 <= i < tail.len() ==> tail[i] != '/',
    ensures
        pieces(text).len() >= 1,
        pieces(text + tail) == pieces(text).drop_last().push(pieces(text).last() + tail),
    decreases tail.len(),
{
    lemma_pieces_some(text);
    if tail.len() != 0 {
        let shorter = tail.drop_last();
        lemma_pieces_extend(text, shorter);
        let whole = text + tail;
        assert(whole.drop_last() =~= text + shorter);
        assert((pieces(text).last() + shorter).push(tail.last()) =~= pieces(text).last() + tail);
    }
}

/// Cutting text and putting the pieces together again gives the text.
pub proof fn lemma_glued_pieces(text: Seq<char>)
    ensures
        glued(pieces(text)) == text,
    decreases text.len(),
{
    if text.len() != 0 {
        let shorter = text.drop_last();
        lemma_glued_pieces(shorter);
        lemma_pieces_some(shorter);
        let before = pieces(shorter);
        let c = text.last();
        assert(text =~= shorter.push(c));
        if c == '/' {
            let now = before.push(Seq::<char>::empty());
            assert(now.drop_last() =~= before);
        } else {
            let now = before.drop_last().push(before.last().push(c));
            if before.len() != 1 {
                assert(now.drop_last() =~= before.drop_last());
                assert(glued(now) =~= glued(before.drop_last()) + seq!['/'] + before.last().push(
                    c,
                ));
            }
        }
    }
}

/// Putting segments without slashes together and cutting the text again
/// gives the segments.
pub proof fn lemma_pieces_glued(segments: Seq<Seq<char>>)
    requires
        segments.len() >= 1,
        forall|k: int, i: int|
            0 <= k < segments.len() && 0 <= i < segments[k].len() ==> segments[k][i] != '/',
    ensures
        pieces(glued(segments)) == segments,
    decreases segments.len(),
{
    let empty = Seq::<char>::empty();
    if segments.len() == 1 {
        lemma_pieces_extend(empty, segments[0]);
    } else {
        let init = segments.drop_last();
        lemma_pieces_glued(init);
        let head = glued(init) + seq!['/'];
        assert(head.drop_last() =~= glued(init));
        lemma_pieces_extend(head, segments.last());
    }
}

/// The path of valid names splits into those names.
pub proof fn lemma_split_join(segments: Seq<Seq<char>>)
    requires
        forall|k: int| 0 <= k < segments.len() ==> valid_name(#[trigger] segments[k]),
    ensures
        split_path(join_path(segments)) == Some(segments),
{
    let path = join_path(segments);
    if segments.len() != 0 {
        assert(path.skip(1) =~= glued(segments));
        assert(glued(segments).len() > 0);
        assert forall|k: int, i: int|
            0 <= k < segments.len() && 0 <= i < segments[k].len() implies segments[k][i]
            != '/' by {}
        lemma_pieces_glued(segments);
    }
}

/// The segments of a path spell that path.
pub proof fn lemma_join_split(path: Seq<char>)
    requires
        split_path(path) is Some,
    ensures
        join_path(split_path(path)->Some_0) == path,
{
    if path.len() != 1 {
        lemma_glued_pieces(path.skip(1));
    }
}

/// One more segment lengthens a path that has segments by a slash and the
/// segment; behind the root it stands alone behind the root's slash.
pub proof fn lemma_join_push(segments: Seq<Seq<char>>, name: Seq<char>)
    ensures
        join_path(segments.push(name)) == if segments.len() == 0 {
            seq!['/'] + name
        } else {
            join_path(segments) + seq!['/'] + name
        },
{
    let longer = segments.push(name);
    assert(longer.drop_last() =~= segments);
}

/// Whether `name` can name a node.
pub fn is_valid_name(name: &str) -> (ok: bool)
    ensures
        ok == valid_name(name@),
{
    let mut some = false;
    let mut clean = true;
    for c in it: name.chars()
        invariant
            it.seq() == name@,
            some == (it.index() > 0),
            clean == forall|i: int| 0 <= i < it.index() ==> name@[i] != '/',
    {
        if c == '/' {
            clean = false;
        }
        some = true;
    }
    clean && some
}

/// Cuts a path into its segments. Text that does not begin with a slash is
/// no path.
pub fn split(path: &str) -> (r: Option<Vec<String>>)
    ensures
        r is Some <==> split_path(path@) is Some,
        r matches Some(segments) ==> split_path(path@) == Some(texts(segments@)),
{
    let n = path.unicode_len();
    if n == 0 {
        return None;
    }
    if path.get_char(0) != '/' {
        return None;
    }
    let mut out: Vec<String> = Vec::new();
    if n == 1 {
        return Some(out);
    }
    let mut start: usize = 1;
    let mut i: usize = 0;
    for c in it: path.chars()
        invariant
            it.seq() == path@,
            i == it.index(),
            n == path@.len(),
            n > 1,
            1 <= start,
            i == 0 ==> start == 1 && out@.len() == 0,
            i >= 1 ==> start <= i && texts(out@).push(path@.subrange(start as int, i as int))
                == pieces(path@.subrange(1, i as int)),
    {
        proof {
            if i >= 1 {
                let sofar = path@.subrange(1, i as int);
                let next = path@.subrange(1, i + 1);
                assert(next.drop_last() =~= sofar);
                assert(path@.subrange(start as int, i as int).push(c) =~= path@.subrange(
                    start as int,
                    i + 1,
                ));
                assert(texts(out@).push(path@.subrange(start as int, i as int)).drop_last()
                    =~= texts(out@));
            } else {
                assert(path@.subrange(1, 1) =~= Seq::<char>::empty());
            }
        }
        if i >= 1 && c == '/' {
            let piece = path.substring_char(start, i).to_owned();
            proof {
                assert(path@.subrange(i + 1, i + 1) =~= Seq::<char>::empty());
            }
            out.push(piece);
            start = i + 1;
        }
        i += 1;
    }
    let piece = path.substring_char(start, n).to_owned();
    out.push(piece);
    Some(out)
}

} // verus!
