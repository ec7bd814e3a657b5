//! Slash-delimited paths as sequences of characters: splitting into segments,
//! trimming separators and taking the suffix that names a file's type.

use vstd::prelude::*;
use crate::text::chars_of;

verus! {

/// The fields of `s` between occurrences of `sep`, read left to right: a
/// separator opens a new (empty) field, any other character extends the last
/// one. There is always at least one field, and `k` separators give `k + 1`
/// fields, so leading, trailing and doubled separators give empty fields.
pub open spec fn split_on(s: Seq<char>, sep: char) -> Seq<Seq<char>>
    decreases s.len(),
{
    if s.len() == 0 {
        seq![Seq::<char>::empty()]
    } else {
        let before = split_on(s.drop_last(), sep);
        if s.last() == sep {
            before.push(Seq::<char>::empty())
        } else {
            before.drop_last().push(before.last().push(s.last()))
        }
    }
}

/// The segments of a path: its fields between `/`.
pub open spec fn segments(path: Seq<char>) -> Seq<Seq<char>> {
    split_on(path, '/')
}

/// `fields` written one after the other with `sep` between neighbours.
pub open spec fn join(fields: Seq<Seq<char>>, sep: char) -> Seq<char>
    decreases fields.len(),
{
    if fields.len() == 0 {
        Seq::<char>::empty()
    } else if fields.len() == 1 {
        fields[0]
    } else {
        join(fields.drop_last(), sep).push(sep) + fields.last()
    }
}

/// `s` without the run of `c` it starts with.
pub open spec fn trim_start(s: Seq<char>, c: char) -> Seq<char>
    decreases s.len(),
{
    if s.len() > 0 && s[0] == c {
        trim_start(s.drop_first(), c)
    } else {
        s
    }
}

/// `s` without the run of `c` it ends with.
pub open spec fn trim_end(s: Seq<char>, c: char) -> Seq<char>
    decreases s.len(),
{
    if s.len() > 0 && s.last() == c {
        trim_end(s.drop_last(), c)
    } else {
        s
    }
}

/// What follows the last `c` in `s`, or `None` when `s` holds no `c`.
pub open spec fn after_last(s: Seq<char>, c: char) -> Option<Seq<char>>
    decreases s.len(),
{
    if s.len() == 0 {
        None
    } else if s.last() == c {
        Some(Seq::<char>::empty())
    } else {
        match after_last(s.drop_last(), c) {
            Some(t) => Some(t.push(s.last())),
            None => None,
        }
    }
}

/// Splitting never yields an empty list, and no field holds the separator.
pub proof fn lemma_split_fields(s: Seq<char>, sep: char)
    ensures
        split_on(s, sep).len() >= 1,
        forall|i: int| 0 <= i < split_on(s, sep).len() ==> !(#[trigger] split_on(s, sep)[i]).contains(sep),
    decreases s.len(),
{
    if s.len() > 0 {
        lemma_split_fields(s.drop_last(), sep);
        let before = split_on(s.drop_last(), sep);
        let after = split_on(s, sep);
        assert forall|i: int| 0 <= i < after.len() implies !(#[trigger] after[i]).contains(sep) by {
            if i < after.len() - 1 {
                assert(after[i] == before[i]);
            } else if s.last() != sep {
                assert(after[i] == before.last().push(s.last()));
            }
        }
    }
}

/// A string without the separator is a single field.
pub proof fn lemma_split_whole(s: Seq<char>, sep: char)
    requires
        !s.contains(sep),
    ensures
        split_on(s, sep) == seq![s],
    decreases s.len(),
{
    if s.len() == 0 {
        assert(s =~= Seq::<char>::empty());
    } else {
        assert forall|i: int| 0 <= i < s.drop_last().len() implies s.drop_last()[i] != sep by {
            assert(s.drop_last()[i] == s[i]);
        }
        lemma_split_whole(s.drop_last(), sep);
        assert(s.drop_last().push(s.last()) =~= s);
    }
}

/// Splitting loses nothing: the fields joined by the separator are the input.
pub proof fn lemma_join_split(s: Seq<char>, sep: char)
    ensures
        join(split_on(s, sep), sep) == s,
    decreases s.len(),
{
    if s.len() > 0 {
        lemma_join_split(s.drop_last(), sep);
        lemma_split_fields(s.drop_last(), sep);
        let before = split_on(s.drop_last(), sep);
        let after = split_on(s, sep);
        if s.last() == sep {
            assert(after.drop_last() =~= before);
        } else if before.len() > 1 {
            assert(after.drop_last() =~= before.drop_last());
            assert(join(after, sep) =~= (join(before.drop_last(), sep).push(sep)
                + before.last()).push(s.last()));
        }
    }
}

/// Splitting is the only way to cut `s` at its separators: a list of fields,
/// none of which holds the separator, that joins to `s` is the split of `s`.
pub proof fn lemma_split_unique(fields: Seq<Seq<char>>, s: Seq<char>, sep: char)
    requires
        fields.len() >= 1,
        forall|i: int| 0 <= i < fields.len() ==> !(#[trigger] fields[i]).contains(sep),
        join(fields, sep) == s,
    ensures
        fields == split_on(s, sep),
    decreases s.len(),
{
    let last = fields.last();
    if fields.len() == 1 {
        lemma_split_whole(s, sep);
        assert(fields =~= seq![s]);
    } else if last.len() == 0 {
        let front = fields.drop_last();
        assert(s =~= join(front, sep).push(sep));
        assert(s.drop_last() =~= join(front, sep));
        lemma_split_unique(front, s.drop_last(), sep);
        assert(last =~= Seq::<char>::empty());
        assert(fields =~= front.push(last));
    } else {
        let shorter = fields.drop_last().push(last.drop_last());
        assert(shorter.drop_last() =~= fields.drop_last());
        assert(s =~= (join(fields.drop_last(), sep).push(sep) + last.drop_last()).push(
            last.last(),
        ));
        assert(s.drop_last() =~= join(shorter, sep));
        assert forall|i: int| 0 <= i < shorter.len() implies !(#[trigger] shorter[i]).contains(
            sep,
        ) by {
            if i == shorter.len() - 1 {
                assert forall|k: int| 0 <= k < shorter[i].len() implies shorter[i][k] != sep by {
                    assert(last[k] == shorter[i][k]);
                }
            } else {
                assert(shorter[i] == fields[i]);
            }
        }
        lemma_split_unique(shorter, s.drop_last(), sep);
        assert(last[last.len() - 1] != sep);
        assert(last.drop_last().push(last.last()) =~= last);
        assert(fields =~= shorter.drop_last().push(shorter.last().push(s.last())));
    }
}

/// The segments of `path`, in order.
pub fn split_path(path: &str) -> (segs: Vec<&str>)
    ensures
        segs@.len() == segments(path@).len(),
        forall|i: int| 0 <= i < segs@.len() ==> (#[trigger] segs@[i])@ == segments(path@)[i],
{
    let chars = chars_of(path);
    let n = chars.len();
    let mut segs: Vec<&str> = Vec::new();
    let mut start: usize = 0;
    let mut i: usize = 0;
    while i < n
        invariant
            chars@ == path@,
            n == chars@.len(),
            start <= i <= n,
            segs@.len() + 1 == segments(path@.take(i as int)).len(),
            forall|k: int| 0 <= k < segs@.len() ==> (#[trigger] segs@[k])@ == segments(
                path@.take(i as int),
            )[k],
            segments(path@.take(i as int)).last() == path@.subrange(start as int, i as int),
        decreases n - i,
    {
        proof {
            let next = path@.take(i + 1);
            assert(next.drop_last() =~= path@.take(i as int));
            assert(path@.subrange(start as int, i as int).push(path@[i as int])
                =~= path@.subrange(start as int, i + 1));
        }
        if chars[i] == '/' {
            segs.push(path.substring_char(start, i));
            start = i + 1;
        }
        i += 1;
    }
    assert(path@.take(n as int) =~= path@);
    segs.push(path.substring_char(start, n));
    segs
}

/// `path` without its leading slashes.
pub fn trim_leading_slashes(path: &str) -> (r: &str)
    ensures
        r@ == trim_start(path@, '/'),
{
    let chars = chars_of(path);
    let n = chars.len();
    let mut i: usize = 0;
    assert(path@.skip(0) =~= path@);
    while i < n && chars[i] == '/'
        invariant
            chars@ == path@,
            n == chars@.len(),
            i <= n,
            trim_start(path@, '/') == trim_start(path@.skip(i as int), '/'),
        decreases n - i,
    {
        assert(path@.skip(i as int).drop_first() =~= path@.skip(i + 1));
        i += 1;
    }
    path.substring_char(i, n)
}

/// `path` without its trailing slashes.
pub fn trim_trailing_slashes(path: &str) -> (r: &str)
    ensures
        r@ == trim_end(path@, '/'),
{
    let chars = chars_of(path);
    let n = chars.len();
    let mut end: usize = 0;
    let mut i: usize = 0;
    while i < n
        invariant
            chars@ == path@,
            n == chars@.len(),
            end <= i <= n,
            trim_end(path@.take(i as int), '/') == path@.take(end as int),
        decreases n - i,
    {
        assert(path@.take(i + 1).drop_last() =~= path@.take(i as int));
        if chars[i] != '/' {
            end = i + 1;
        }
        i += 1;
    }
    assert(path@.take(n as int) =~= path@);
    path.substring_char(0, end)
}

/// `path` without its leading and its trailing slashes.
pub fn trim_slashes(path: &str) -> (r: &str)
    ensures
        r@ == trim_end(trim_start(path@, '/'), '/'),
{
    trim_trailing_slashes(trim_leading_slashes(path))
}

/// The suffix of `path` after its last `.`, if it has one.
pub fn extension(path: &str) -> (r: Option<&str>)
    ensures
        match r {
            Some(ext) => after_last(path@, '.') == Some(ext@),
            None => after_last(path@, '.') is None,
        },
{
    let chars = chars_of(path);
    let n = chars.len();
    let mut from: Option<usize> = None;
    let mut i: usize = 0;
    while i < n
        invariant
            chars@ == path@,
            n == chars@.len(),
            i <= n,
            match from {
                Some(d) => d <= i && after_last(path@.take(i as int), '.') == Some(
                    path@.subrange(d as int, i as int),
                ),
                None => after_last(path@.take(i as int), '.') is None,
            },
        decreases n - i,
    {
        proof {
            assert(path@.take(i + 1).drop_last() =~= path@.take(i as int));
            if let Some(d) = from {
                assert(path@.subrange(d as int, i as int).push(path@[i as int])
                    =~= path@.subrange(d as int, i + 1));
            }
        }
        if chars[i] == '.' {
            from = Some(i + 1);
        }
        i += 1;
    }
    assert(path@.take(n as int) =~= path@);
    match from {
        Some(d) => Some(path.substring_char(d, n)),
        None => None,
    }
}

} // verus!
