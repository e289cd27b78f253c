//! Reading what measured programs print.

use vstd::prelude::*;
use vstd::string::*;
use crate::scan::{
    begins_with, clip, clipped, fields_of, lines, lines_of, split_whitespace, strip_prefix, texts, trim, trimmed,
};

verus! {

/// The most characters of an execution's output that a report repeats.
pub const PREVIEW_CHARS: usize = 80;

/// The start of the first line of an output.
pub open spec fn preview(stdout: Seq<char>) -> Seq<char> {
    let all = lines_of(stdout);
    if all.len() == 0 {
        Seq::empty()
    } else {
        clipped(all[0], PREVIEW_CHARS as nat)
    }
}

/// The start of the first line of an output, for a report.
pub fn stdout_preview(stdout: &str) -> (r: String)
    ensures
        r@ == preview(stdout@),
{
    let all = lines(stdout);
    assert(texts(all@).len() == all@.len());
    if all.len() == 0 {
        String::new()
    } else {
        assert(texts(all@)[0] == all@[0]@);
        clip(all[0].as_str(), PREVIEW_CHARS)
    }
}

/// The second field of each line that begins with `VmRSS:`, of those that have two.
pub open spec fn rss_fields(lines: Seq<Seq<char>>) -> Seq<Seq<char>>
    decreases lines.len(),
{
    if lines.len() == 0 {
        Seq::empty()
    } else {
        let line = lines.last();
        let rest = rss_fields(lines.drop_last());
        if begins_with(line, "VmRSS:"@) && fields_of(line).len() > 1 {
            rest.push(fields_of(line)[1])
        } else {
            rest
        }
    }
}

/// What `/proc/self/status` gives as the resident memory of a process: the number is the first of
/// these texts that is one, in kilobytes.
pub fn vm_rss_fields(status: &str) -> (r: Vec<String>)
    ensures
        texts(r@) == rss_fields(lines_of(status@)),
{
    let all = lines(status);
    let ghost lines = texts(all@);
    let mut out: Vec<String> = Vec::new();
    let mut i: usize = 0;
    assert(texts(out@) =~= rss_fields(lines.take(0)));
    while i < all.len()
        invariant
            lines == texts(all@),
            i <= all@.len(),
            texts(out@) == rss_fields(lines.take(i as int)),
        decreases all@.len() - i,
    {
        let ghost before = out@;
        let line = all[i].as_str();
        proof {
            assert(lines.take(i + 1).drop_last() =~= lines.take(i as int));
            assert(lines.take(i + 1).last() == line@);
        }
        if strip_prefix(line, "VmRSS:").is_some() {
            let mut fields = split_whitespace(line);
            assert(texts(fields@).len() == fields@.len());
            if fields.len() > 1 {
                assert(texts(fields@)[1] == fields@[1]@);
                let field = fields.swap_remove(1);
                out.push(field);
                assert(texts(out@) =~= texts(before).push(field@));
            }
        }
        i += 1;
    }
    assert(lines.take(i as int) =~= lines);
    out
}

/// What the memory probe of a container prints before the number of bytes.
pub const CGROUP_MARK: &'static str = "__CGROUP_MEM__=";

/// What follows the mark on each line that begins with it, without whitespace at its ends.
pub open spec fn marked_values(lines: Seq<Seq<char>>) -> Seq<Seq<char>>
    decreases lines.len(),
{
    if lines.len() == 0 {
        Seq::empty()
    } else {
        let line = lines.last();
        let rest = marked_values(lines.drop_last());
        if begins_with(line, CGROUP_MARK@) {
            rest.push(trimmed(line.skip(CGROUP_MARK@.len() as int)))
        } else {
            rest
        }
    }
}

/// What a container printed as its memory: the number is the first of these texts that is one, in
/// bytes.
pub fn cgroup_values(stdout: &str) -> (r: Vec<String>)
    ensures
        texts(r@) == marked_values(lines_of(stdout@)),
{
    let all = lines(stdout);
    let ghost lines = texts(all@);
    let mut out: Vec<String> = Vec::new();
    let mut i: usize = 0;
    assert(texts(out@) =~= marked_values(lines.take(0)));
    while i < all.len()
        invariant
            lines == texts(all@),
            i <= all@.len(),
            texts(out@) == marked_values(lines.take(i as int)),
        decreases all@.len() - i,
    {
        let ghost before = out@;
        let line = all[i].as_str();
        proof {
            assert(lines.take(i + 1).drop_last() =~= lines.take(i as int));
            assert(lines.take(i + 1).last() == line@);
        }
        match strip_prefix(line, CGROUP_MARK) {
            Some(value) => {
                let value = trim(value.as_str());
                out.push(value);
                assert(texts(out@) =~= texts(before).push(value@));
            },
            None => {},
        }
        i += 1;
    }
    assert(lines.take(i as int) =~= lines);
    out
}

/// The first field of the first line, if there is one.
pub open spec fn leading_field(stdout: Seq<char>) -> Option<Seq<char>> {
    let all = lines_of(stdout);
    if all.len() > 0 && fields_of(all[0]).len() > 0 {
        Some(fields_of(all[0])[0])
    } else {
        None
    }
}

/// What `du` printed as the total size, in kilobytes, if it printed anything.
pub fn du_field(stdout: &str) -> (r: Option<String>)
    ensures
        match leading_field(stdout@) {
            Some(f) => r is Some && r->0@ == f,
            None => r is None,
        },
{
    let all = lines(stdout);
    assert(texts(all@).len() == all@.len());
    if all.len() == 0 {
        return None;
    }
    assert(texts(all@)[0] == all@[0]@);
    let mut fields = split_whitespace(all[0].as_str());
    assert(texts(fields@).len() == fields@.len());
    if fields.len() == 0 {
        return None;
    }
    assert(texts(fields@)[0] == fields@[0]@);
    Some(fields.swap_remove(0))
}

/// A preview is the start of the first line: 80 characters of it, or all if it has no more, and
/// nothing of any other line.
pub proof fn preview_is_the_start_of_the_first_line(stdout: Seq<char>)
    ensures
        lines_of(stdout).len() == 0 ==> preview(stdout).len() == 0,
        lines_of(stdout).len() > 0 ==> {
            let line = lines_of(stdout)[0];
            &&& preview(stdout).len() == if line.len() < 80 {
                line.len()
            } else {
                80
            }
            &&& forall|i: int| 0 <= i < preview(stdout).len() ==> #[trigger] preview(stdout)[i] == line[i]
        },
{
}

/// What is taken for the resident memory is the second field of every line that begins with the
/// label and has two, and of no other.
pub proof fn resident_memory_is_on_labelled_lines(lines: Seq<Seq<char>>)
    ensures
        rss_fields(lines) == lines.filter(
            |l: Seq<char>| "VmRSS:"@.is_prefix_of(l) && fields_of(l).len() >= 2,
        ).map_values(|l: Seq<char>| fields_of(l)[1]),
    decreases lines.len(),
{
    let p = |l: Seq<char>| "VmRSS:"@.is_prefix_of(l) && fields_of(l).len() >= 2;
    let f = |l: Seq<char>| fields_of(l)[1];
    reveal(Seq::filter);
    if lines.len() > 0 {
        let rest = lines.drop_last();
        let l = lines.last();
        resident_memory_is_on_labelled_lines(rest);
        lemma_prefix_is_beginning(l, "VmRSS:"@);
        if p(l) {
            assert(lines.filter(p) == rest.filter(p).push(l));
        }
    }
    assert(rss_fields(lines) =~= lines.filter(p).map_values(f));
}

/// What is taken for the memory of a container is what follows the mark on every line that begins
/// with it, without the whitespace around it, and nothing else.
pub proof fn container_memory_is_on_marked_lines(lines: Seq<Seq<char>>)
    ensures
        marked_values(lines) == lines.filter(|l: Seq<char>| "__CGROUP_MEM__="@.is_prefix_of(l)).map_values(
            |l: Seq<char>| trimmed(l.skip("__CGROUP_MEM__="@.len() as int)),
        ),
    decreases lines.len(),
{
    let p = |l: Seq<char>| "__CGROUP_MEM__="@.is_prefix_of(l);
    let f = |l: Seq<char>| trimmed(l.skip("__CGROUP_MEM__="@.len() as int));
    reveal(Seq::filter);
    if lines.len() > 0 {
        let rest = lines.drop_last();
        let l = lines.last();
        container_memory_is_on_marked_lines(rest);
        lemma_prefix_is_beginning(l, "__CGROUP_MEM__="@);
        if p(l) {
            assert(lines.filter(p) == rest.filter(p).push(l));
        }
    }
    assert(marked_values(lines) =~= lines.filter(p).map_values(f));
}

proof fn lemma_prefix_is_beginning(l: Seq<char>, prefix: Seq<char>)
    ensures
        prefix.is_prefix_of(l) == begins_with(l, prefix),
{
    if prefix.is_prefix_of(l) {
        assert(l.take(prefix.len() as int) =~= prefix);
    }
    if begins_with(l, prefix) {
        assert(l.subrange(0, prefix.len() as int) =~= prefix);
    }
}

/// The size of an image is the first field of the first line, if there is one.
pub proof fn image_size_is_the_first_field(stdout: Seq<char>)
    ensures
        leading_field(stdout) is Some <==> lines_of(stdout).len() > 0 && fields_of(
            lines_of(stdout)[0],
        ).len() > 0,
        leading_field(stdout) matches Some(f) ==> f == fields_of(lines_of(stdout)[0])[0],
{
}

} // verus!
