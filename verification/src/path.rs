//! Where an entry lands on disk.
//!
//! The name of an entry is joined onto the output directory as it stands. No
//! segment of it is rejected or rewritten: a name that is absolute, or that
//! climbs with `..`, resolves outside the output directory.

use vstd::prelude::*;
use vstd::string::StringExecFns;
use crate::text::chars_of;

verus! {

/// Whether `name` starts at the root.
pub open spec fn is_absolute(name: Seq<char>) -> bool {
    name.len() > 0 && name[0] == '/'
}

/// Whether a separator has to be put between `dir` and what is joined onto it.
pub open spec fn needs_separator(dir: Seq<char>) -> bool {
    dir.len() > 0 && dir.last() != '/'
}

/// `name` joined onto `dir`: an absolute name replaces `dir`, any other name
/// follows it, after a separator where `dir` does not end with one.
pub open spec fn joined(dir: Seq<char>, name: Seq<char>) -> Seq<char> {
    if is_absolute(name) {
        name
    } else if needs_separator(dir) {
        dir.push('/') + name
    } else {
        dir + name
    }
}

/// The path at which the entry called `name` is written when the archive is
/// extracted into `output_dir`.
pub fn resolve_output_path(output_dir: &str, name: &str) -> (path: String)
    ensures
        path@ == joined(output_dir@, name@),
{
    let name_chars = chars_of(name);
    if name_chars.len() > 0 && name_chars[0] == '/' {
        return name.to_owned();
    }
    let dir_chars = chars_of(output_dir);
    let n = dir_chars.len();
    let mut path = output_dir.to_owned();
    if n > 0 && dir_chars[n - 1] != '/' {
        proof {
            reveal_strlit("/");
            assert(output_dir@ + "/"@ =~= output_dir@.push('/'));
        }
        path.append("/");
    }
    path.append(name);
    path
}

/// The position of the first separator in `name`, or the length of `name`
/// where it holds none.
pub open spec fn first_separator(name: Seq<char>) -> int
    decreases name.len(),
{
    if name.len() == 0 || name[0] == '/' {
        0
    } else {
        1 + first_separator(name.skip(1))
    }
}

/// The segments of `name`: what stands between its separators, in order. A
/// name of n separators has n + 1 segments, some of which may be empty.
pub open spec fn segments(name: Seq<char>) -> Seq<Seq<char>>
    decreases name.len(),
{
    let cut = first_separator(name);
    if 0 <= cut < name.len() {
        seq![name.take(cut)] + segments(name.skip(cut + 1))
    } else {
        seq![name]
    }
}

/// Whether a segment climbs to the parent directory.
pub open spec fn climbs(segment: Seq<char>) -> bool {
    segment == seq!['.', '.']
}

/// Whether a segment stays in the directory it is read in.
pub open spec fn stands_still(segment: Seq<char>) -> bool {
    segment.len() == 0 || segment == seq!['.']
}

/// By how many levels a segment moves below the directory it is read in.
pub open spec fn descent(segment: Seq<char>) -> int {
    if climbs(segment) {
        -1
    } else if stands_still(segment) {
        0
    } else {
        1
    }
}

/// How many levels below the output directory the first `count` segments lead.
/// A negative depth lies outside the output directory.
pub open spec fn depth_after(path: Seq<Seq<char>>, count: int) -> int
    decreases count,
{
    if count <= 0 {
        0
    } else {
        depth_after(path, count - 1) + descent(path[count - 1])
    }
}

/// Whether the entry called `name` stays inside the output directory on the
/// face of its name: the name is not absolute, and read segment by segment it
/// never climbs above the directory it started in.
pub open spec fn stays_inside(name: Seq<char>) -> bool {
    &&& !is_absolute(name)
    &&& forall|count: int|
        0 <= count <= segments(name).len() ==> depth_after(segments(name), count) >= 0
}

/// Where the first separator of a name lies.
pub proof fn lemma_first_separator(name: Seq<char>)
    ensures
        0 <= first_separator(name) <= name.len(),
        forall|i: int| 0 <= i < first_separator(name) ==> name[i] != '/',
        first_separator(name) < name.len() ==> name[first_separator(name)] == '/',
    decreases name.len(),
{
    if name.len() > 0 && name[0] != '/' {
        let rest = name.skip(1);
        lemma_first_separator(rest);
        assert forall|i: int| 0 <= i < first_separator(name) implies name[i] != '/' by {
            if i > 0 {
                assert(name[i] == rest[i - 1]);
            }
        }
        if first_separator(name) < name.len() {
            assert(name[first_separator(name)] == rest[first_separator(rest)]);
        }
    }
}

/// A position that no separator precedes, and that holds one or is the end, is
/// where the first separator lies.
proof fn lemma_first_separator_at(name: Seq<char>, cut: int)
    requires
        0 <= cut <= name.len(),
        forall|i: int| 0 <= i < cut ==> name[i] != '/',
        cut < name.len() ==> name[cut] == '/',
    ensures
        first_separator(name) == cut,
    decreases cut,
{
    if cut > 0 {
        let rest = name.skip(1);
        assert forall|i: int| 0 <= i < cut - 1 implies rest[i] != '/' by {
            assert(rest[i] == name[i + 1]);
        }
        lemma_first_separator_at(rest, cut - 1);
    }
}

/// Tells whether the entry called `name` stays inside the output directory on
/// the face of its name. Links on the disk are not looked at.
pub fn is_contained(name: &str) -> (contained: bool)
    ensures
        contained == stays_inside(name@),
{
    let chars = chars_of(name);
    let n = chars.len();
    if n > 0 && chars[0] == '/' {
        return false;
    }
    let ghost all = segments(chars@);
    let ghost mut done: int = 0;
    let mut start: usize = 0;
    let mut at: usize = 0;
    let mut depth: usize = 0;
    proof {
        assert(chars@.skip(0) =~= chars@);
        assert(all.skip(0) =~= all);
    }
    while at < n
        invariant
            start <= at <= n,
            n == chars.len(),
            chars@ == name@,
            all == segments(chars@),
            0 <= done < all.len(),
            all.skip(done) == segments(chars@.skip(start as int)),
            forall|j: int| start <= j < at ==> chars@[j] != '/',
            depth == depth_after(all, done),
            depth <= done <= start,
            forall|count: int| 0 <= count <= done ==> depth_after(all, count) >= 0,
        decreases n - at,
    {
        if chars[at] == '/' {
            let length = at - start;
            let ghost rest = chars@.skip(start as int);
            let ghost segment = rest.take(length as int);
            proof {
                lemma_first_separator_at(rest, length as int);
                assert(segments(rest) == seq![segment] + segments(rest.skip(length + 1)));
                assert(rest.skip(length + 1) =~= chars@.skip(at + 1));
                assert(all[done] == all.skip(done)[0]);
                assert(all[done] == segment);
                assert(all.skip(done + 1) =~= all.skip(done).skip(1));
                assert(all.skip(done).skip(1) =~= segments(chars@.skip(at + 1)));
                assert(segments(chars@.skip(at + 1)).len() > 0);
            }
            if length == 2 && chars[start] == '.' && chars[start + 1] == '.' {
                assert(segment =~= seq!['.', '.']);
                if depth == 0 {
                    assert(depth_after(all, done + 1) < 0);
                    return false;
                }
                depth = depth - 1;
            } else if length == 0 || (length == 1 && chars[start] == '.') {
                assert(stands_still(segment)) by {
                    if length == 1 {
                        assert(segment =~= seq!['.']);
                    }
                }
                assert(!climbs(segment));
            } else {
                assert(!climbs(segment)) by {
                    if segment == seq!['.', '.'] {
                        assert(segment[0] == '.' && segment[1] == '.');
                    }
                }
                assert(!stands_still(segment)) by {
                    if segment == seq!['.'] {
                        assert(segment[0] == '.');
                    }
                }
                depth = depth + 1;
            }
            proof {
                done = done + 1;
            }
            start = at + 1;
        }
        at += 1;
    }
    let length = n - start;
    let ghost last = chars@.skip(start as int);
    proof {
        lemma_first_separator_at(last, length as int);
        assert(segments(last) == seq![last]);
        assert(all.len() == done + 1) by {
            assert(all.skip(done).len() == 1);
        }
        assert(all[done] == all.skip(done)[0]);
    }
    if length == 2 && chars[start] == '.' && chars[start + 1] == '.' && depth == 0 {
        assert(last =~= seq!['.', '.']);
        assert(depth_after(all, done + 1) < 0);
        false
    } else {
        assert(depth_after(all, done + 1) >= 0) by {
            if climbs(last) {
                assert(last[0] == '.' && last[1] == '.');
            }
        }
        true
    }
}

/// The directory that the first `count` segments of `path` lead to from the
/// directory `base`, each directory given as the names on the way to it: a
/// climbing segment drops the last name, a segment that stands still changes
/// nothing, and any other segment is a name to go down by.
pub open spec fn reached(base: Seq<Seq<char>>, path: Seq<Seq<char>>, count: int) -> Seq<Seq<char>>
    decreases count,
{
    if count <= 0 {
        base
    } else {
        let before = reached(base, path, count - 1);
        let segment = path[count - 1];
        if climbs(segment) {
            if before.len() > 0 {
                before.drop_last()
            } else {
                before
            }
        } else if stands_still(segment) {
            before
        } else {
            before.push(segment)
        }
    }
}

/// A name that stays inside never leads out of the directory it is resolved
/// in: whatever that directory is, every directory on the way through the
/// segments of the name lies at or below it.
pub proof fn lemma_contained_name_stays_below(base: Seq<Seq<char>>, name: Seq<char>, count: int)
    requires
        stays_inside(name),
        0 <= count <= segments(name).len(),
    ensures
        base.is_prefix_of(reached(base, segments(name), count)),
        reached(base, segments(name), count).len() == base.len() + depth_after(
            segments(name),
            count,
        ),
    decreases count,
{
    let path = segments(name);
    if count > 0 {
        lemma_contained_name_stays_below(base, name, count - 1);
        let before = reached(base, path, count - 1);
        let after = reached(base, path, count);
        assert(depth_after(path, count) >= 0);
        assert(depth_after(path, count - 1) >= 0);
        assert(after.take(base.len() as int) =~= before.take(base.len() as int));
    } else {
        assert(base.take(base.len() as int) =~= base);
    }
}

/// Joining keeps the name whole: the resolved path always ends with the name
/// of the entry, whatever segments the name holds.
pub proof fn lemma_joined_ends_with_name(dir: Seq<char>, name: Seq<char>)
    ensures
        name.is_suffix_of(joined(dir, name)),
{
    let path = joined(dir, name);
    assert(path.skip(path.len() - name.len()) =~= name);
}

/// A name that is not absolute resolves to a path that starts with the output
/// directory, and an absolute name resolves to itself.
pub proof fn lemma_joined_starts_with_dir(dir: Seq<char>, name: Seq<char>)
    ensures
        !is_absolute(name) ==> dir.is_prefix_of(joined(dir, name)),
        is_absolute(name) ==> joined(dir, name) == name,
{
    if !is_absolute(name) {
        assert(joined(dir, name).take(dir.len() as int) =~= dir);
    }
}

} // verus!
