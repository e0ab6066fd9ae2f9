//! Paths of shader sources and of the binaries compiled from them.
//!
//! A path is a string whose segments are separated by `/`. Its file name is
//! its last segment, once trailing separators and trailing `.` segments are
//! set aside; a path that ends in `..` has none. The extension of a file name
//! is what follows its last `.`, unless that `.` opens the name. The binary
//! of a source has the path of the source with the extension replaced.
//!
//! This is how `std::path::Path` reads a path on Unix, with one difference:
//! a file name such as `..a`, whose stem is `.`, keeps that stem when its
//! extension is replaced (`..spv`).

use vstd::prelude::*;
use vstd::string::StringExecFns;
use vstd::string::StrSliceExecFns;
use crate::text::chars_of;

verus! {

/// The directory under which shader sources live.
pub const ASSET_ROOT: &'static str = "assets";

/// The extension of shader sources.
pub const SOURCE_EXTENSION: &'static str = "slang";

/// The extension of compiled binaries.
pub const BINARY_EXTENSION: &'static str = "spv";

/// The length of `path` without its trailing separators and trailing `.`
/// segments.
pub open spec fn trimmed_len(path: Seq<char>) -> nat
    decreases path.len(),
{
    if path.len() == 0 {
        0
    } else if path.last() == '/' {
        trimmed_len(path.drop_last())
    } else if path.last() == '.' && (path.len() == 1 || path[path.len() - 2] == '/') {
        trimmed_len(path.drop_last())
    } else {
        path.len()
    }
}

/// Where the segment that ends at `end` starts: after the last separator
/// before `end`, or at 0.
pub open spec fn segment_start(path: Seq<char>, end: nat) -> nat
    decreases end,
{
    if end == 0 || path[end - 1] == '/' {
        end
    } else {
        segment_start(path, (end - 1) as nat)
    }
}

/// The file name of `path`, if it has one.
pub open spec fn file_name(path: Seq<char>) -> Option<Seq<char>> {
    let end = trimmed_len(path);
    let name = path.subrange(segment_start(path, end) as int, end as int);
    if end == 0 || name == seq!['.', '.'] {
        None
    } else {
        Some(name)
    }
}

/// The position of the last `.` in `name`, if it holds one.
pub open spec fn last_dot(name: Seq<char>) -> Option<nat>
    decreases name.len(),
{
    if name.len() == 0 {
        None
    } else if name.last() == '.' {
        Some((name.len() - 1) as nat)
    } else {
        last_dot(name.drop_last())
    }
}

/// The length of the stem of a file name: the name up to its last `.`, or
/// the whole name where it has no `.` or only one that opens it.
pub open spec fn stem_len(name: Seq<char>) -> nat {
    match last_dot(name) {
        Some(dot) => if dot > 0 {
            dot
        } else {
            name.len()
        },
        None => name.len(),
    }
}

/// The extension of `path`, if its file name has one.
pub open spec fn extension_of(path: Seq<char>) -> Option<Seq<char>> {
    match file_name(path) {
        Some(name) => if stem_len(name) < name.len() {
            Some(name.subrange(stem_len(name) as int + 1, name.len() as int))
        } else {
            None
        },
        None => None,
    }
}

/// `path` up to the end of the stem of its file name. A path without a file
/// name is kept whole.
pub open spec fn stem_path(path: Seq<char>) -> Seq<char> {
    match file_name(path) {
        Some(name) => path.subrange(0, trimmed_len(path) - name.len() + stem_len(name)),
        None => path,
    }
}

/// `path` with the extension of its file name replaced by `extension`, or
/// removed where `extension` is empty. A path without a file name is left as
/// it is.
pub open spec fn replaced_extension(path: Seq<char>, extension: Seq<char>) -> Seq<char> {
    if file_name(path) is None || extension.len() == 0 {
        stem_path(path)
    } else {
        stem_path(path) + seq!['.'] + extension
    }
}

/// Where on disk the source with the given asset path lies: under the asset
/// root, unless the asset path is absolute.
pub open spec fn on_disk(asset_path: Seq<char>) -> Seq<char> {
    if asset_path.len() > 0 && asset_path[0] == '/' {
        asset_path
    } else {
        ASSET_ROOT@ + seq!['/'] + asset_path
    }
}

/// The path of the binary compiled from `source`.
pub open spec fn binary_of(source: Seq<char>) -> Seq<char> {
    replaced_extension(source, BINARY_EXTENSION@)
}

/// The path of the source that `binary` was compiled from.
pub open spec fn source_of(binary: Seq<char>) -> Seq<char> {
    replaced_extension(binary, SOURCE_EXTENSION@)
}

/// The length of `path` without its trailing separators and `.` segments.
fn trimmed_end(path: &Vec<char>) -> (end: usize)
    ensures
        end == trimmed_len(path@),
        end <= path.len(),
{
    let mut end: usize = path.len();
    assert(path@.take(end as int) == path@);
    loop
        invariant
            end <= path.len(),
            trimmed_len(path@) == trimmed_len(path@.take(end as int)),
        ensures
            end == trimmed_len(path@),
            end <= path.len(),
        decreases end,
    {
        if end == 0 {
            break ;
        }
        let last = path[end - 1];
        let dropped = last == '/' || (last == '.' && (end == 1 || path[end - 2] == '/'));
        if !dropped {
            break ;
        }
        assert(path@.take(end as int).drop_last() == path@.take(end - 1));
        end -= 1;
    }
    end
}

/// Where the segment of `path` that ends at `end` starts.
fn segment_begin(path: &Vec<char>, end: usize) -> (start: usize)
    requires
        end <= path.len(),
    ensures
        start == segment_start(path@, end as nat),
        start <= end,
{
    let mut start: usize = end;
    while start > 0 && path[start - 1] != '/'
        invariant
            start <= end <= path.len(),
            segment_start(path@, end as nat) == segment_start(path@, start as nat),
        decreases start,
    {
        start -= 1;
    }
    start
}

/// The position in `path` of the last `.` of the name that fills
/// `start..end`.
fn find_last_dot(path: &Vec<char>, start: usize, end: usize) -> (dot: Option<usize>)
    requires
        start <= end <= path.len(),
    ensures
        match last_dot(path@.subrange(start as int, end as int)) {
            Some(at) => dot == Some((start + at) as usize) && start + at < end,
            None => dot is None,
        },
{
    let ghost name = path@.subrange(start as int, end as int);
    let mut at: usize = end;
    assert(name.take(at - start) == name);
    while at > start
        invariant
            start <= at <= end <= path.len(),
            name == path@.subrange(start as int, end as int),
            last_dot(name) == last_dot(name.take(at - start)),
        decreases at,
    {
        if path[at - 1] == '.' {
            return Some(at - 1);
        }
        assert(name.take(at - start).drop_last() == name.take(at - start - 1));
        at -= 1;
    }
    None
}

/// Replaces the extension of the file name of `path` by `extension`, or
/// removes it where `extension` is empty. What follows the file name
/// (separators, `.` segments) is dropped. A path without a file name comes
/// back as it is.
pub fn with_extension(path: &str, extension: &str) -> (out: String)
    ensures
        out@ == replaced_extension(path@, extension@),
{
    let chars = chars_of(path);
    let end = trimmed_end(&chars);
    let start = segment_begin(&chars, end);
    if end == 0 || (end - start == 2 && chars[start] == '.' && chars[start + 1] == '.') {
        assert(end != 0 ==> chars@.subrange(start as int, end as int) =~= seq!['.', '.']);
        return path.to_owned();
    }
    let keep = match find_last_dot(&chars, start, end) {
        Some(dot) => if dot > start {
            dot
        } else {
            end
        },
        None => end,
    };
    let mut out = String::from_str(path.substring_char(0, keep));
    if !extension.is_empty() {
        out.append(".");
        out.append(extension);
        proof {
            reveal_strlit(".");
        }
    }
    out
}

/// The on-disk path of the source with the given asset path.
pub fn on_disk_path(asset_path: &str) -> (path: String)
    ensures
        path@ == on_disk(asset_path@),
{
    if !asset_path.is_empty() && asset_path.get_char(0) == '/' {
        asset_path.to_owned()
    } else {
        let mut path = String::from_str(ASSET_ROOT);
        path.append("/");
        path.append(asset_path);
        proof {
            reveal_strlit("/");
        }
        path
    }
}

/// The path of the binary compiled from `source`: `source` with its
/// extension replaced by the binary extension.
pub fn output_path(source: &str) -> (binary: String)
    ensures
        binary@ == binary_of(source@),
{
    with_extension(source, BINARY_EXTENSION)
}

/// The path of the source that `binary` was compiled from: `binary` with its
/// extension replaced by the source extension.
pub fn source_path(binary: &str) -> (source: String)
    ensures
        source@ == source_of(binary@),
{
    with_extension(binary, SOURCE_EXTENSION)
}

/// An extension that can be told apart again once it is in a path: it is
/// not empty and holds neither a separator nor a `.`.
pub open spec fn plain_extension(extension: Seq<char>) -> bool {
    &&& extension.len() > 0
    &&& forall|i: int| 0 <= i < extension.len() ==> extension[i] != '/' && extension[i] != '.'
}

/// The binary path differs from the source path in the extension alone: it
/// has the stem of the source path, and the binary extension.
pub proof fn lemma_binary_keeps_stem(source: Seq<char>)
    requires
        file_name(source) is Some,
    ensures
        stem_path(binary_of(source)) == stem_path(source),
        extension_of(binary_of(source)) == Some(BINARY_EXTENSION@),
        binary_of(source) == stem_path(source) + seq!['.'] + BINARY_EXTENSION@,
{
    lemma_extensions_plain();
    lemma_replaced_plain(source, BINARY_EXTENSION@);
}

/// The source path is found again from the binary path: for a source path
/// that ends in a file name with the source extension, and for one without a
/// file name, `source_of(binary_of(source))` is `source`.
pub proof fn lemma_source_of_binary(source: Seq<char>)
    requires
        file_name(source) is None || (extension_of(source) == Some(SOURCE_EXTENSION@)
            && trimmed_len(source) == source.len()),
    ensures
        source_of(binary_of(source)) == source,
{
    lemma_extensions_plain();
    if file_name(source) is Some {
        lemma_replaced_twice(source, BINARY_EXTENSION@, SOURCE_EXTENSION@);
        lemma_replaced_by_own(source);
    }
}

/// The binary of a source lies on disk where the compiler writes it: for an
/// asset path with a file name, taking the binary path and going to disk
/// come to the same in either order.
pub proof fn lemma_binary_on_disk(asset_path: Seq<char>)
    requires
        file_name(asset_path) is Some,
    ensures
        on_disk(binary_of(asset_path)) == binary_of(on_disk(asset_path)),
{
    lemma_file_name(asset_path);
    if asset_path[0] != '/' {
        let prefix = ASSET_ROOT@ + seq!['/'];
        lemma_prefixed(prefix, asset_path);
        let whole = prefix + asset_path;
        let end = trimmed_len(asset_path);
        let start = segment_start(asset_path, end);
        assert(whole.subrange(prefix.len() + start as int, prefix.len() + end as int)
            =~= asset_path.subrange(start as int, end as int));
    }
}

/// Replacing the extension twice comes to replacing it once by the second
/// extension, where the first is plain.
pub proof fn lemma_replaced_twice(path: Seq<char>, first: Seq<char>, second: Seq<char>)
    requires
        plain_extension(first),
    ensures
        replaced_extension(replaced_extension(path, first), second) == replaced_extension(
            path,
            second,
        ),
{
    if file_name(path) is Some {
        lemma_replaced_plain(path, first);
    }
}

/// The source and the binary extension are plain.
proof fn lemma_extensions_plain()
    ensures
        plain_extension(SOURCE_EXTENSION@),
        plain_extension(BINARY_EXTENSION@),
{
    reveal_strlit("slang");
    reveal_strlit("spv");
}

/// A path is at least as long as what is left of it once its trailing
/// separators and `.` segments are dropped.
proof fn lemma_trimmed_len(path: Seq<char>)
    ensures
        trimmed_len(path) <= path.len(),
        trimmed_len(path) > 0 ==> path[trimmed_len(path) - 1] != '/',
    decreases path.len(),
{
    if path.len() != 0 {
        lemma_trimmed_len(path.drop_last());
    }
}

/// The segment that ends at `end` reaches back to the nearest separator.
proof fn lemma_segment_start(path: Seq<char>, end: nat)
    requires
        end <= path.len(),
    ensures
        segment_start(path, end) <= end,
        segment_start(path, end) == 0 || path[segment_start(path, end) - 1] == '/',
        forall|i: int| segment_start(path, end) <= i < end ==> path[i] != '/',
    decreases end,
{
    if end != 0 && path[end - 1] != '/' {
        lemma_segment_start(path, (end - 1) as nat);
    }
}

/// A position after a separator with no separator up to `end` is where the
/// segment that ends at `end` starts.
proof fn lemma_segment_start_is(path: Seq<char>, end: nat, start: nat)
    requires
        start <= end <= path.len(),
        start == 0 || path[start - 1] == '/',
        forall|i: int| start <= i < end ==> path[i] != '/',
    ensures
        segment_start(path, end) == start,
    decreases end,
{
    if end > start {
        lemma_segment_start_is(path, (end - 1) as nat, start);
    }
}

/// Where a segment starts depends only on what stands before its end.
proof fn lemma_segment_start_same(path: Seq<char>, other: Seq<char>, end: nat)
    requires
        end <= path.len(),
        end <= other.len(),
        forall|i: int| 0 <= i < end ==> path[i] == other[i],
    ensures
        segment_start(path, end) == segment_start(other, end),
    decreases end,
{
    if end != 0 && path[end - 1] != '/' {
        lemma_segment_start_same(path, other, (end - 1) as nat);
    }
}

/// The last `.` of a name is a `.`, and none follows it.
proof fn lemma_last_dot(name: Seq<char>)
    ensures
        match last_dot(name) {
            Some(dot) => dot < name.len() && name[dot as int] == '.' && forall|i: int|
                dot < i < name.len() ==> name[i] != '.',
            None => forall|i: int| 0 <= i < name.len() ==> name[i] != '.',
        },
    decreases name.len(),
{
    if name.len() != 0 && name.last() != '.' {
        let shorter = name.drop_last();
        lemma_last_dot(shorter);
        assert forall|i: int| 0 <= i < shorter.len() implies shorter[i] == name[i] by {}
    }
}

/// A `.` that no other follows is the last one.
proof fn lemma_last_dot_is(name: Seq<char>, dot: nat)
    requires
        dot < name.len(),
        name[dot as int] == '.',
        forall|i: int| dot < i < name.len() ==> name[i] != '.',
    ensures
        last_dot(name) == Some(dot),
    decreases name.len(),
{
    if name.last() != '.' {
        lemma_last_dot_is(name.drop_last(), dot);
    }
}

/// A file name is not empty, and neither is its stem.
proof fn lemma_file_name(path: Seq<char>)
    requires
        file_name(path) is Some,
    ensures
        segment_start(path, trimmed_len(path)) < trimmed_len(path) <= path.len(),
        0 < stem_len(file_name(path)->0) <= file_name(path)->0.len(),
{
    let end = trimmed_len(path);
    lemma_trimmed_len(path);
    lemma_segment_start(path, (end - 1) as nat);
    lemma_last_dot(file_name(path)->0);
}

/// Once a plain extension has been put on a path with a file name, the path
/// ends in that file name, and its stem is the stem it had.
proof fn lemma_replaced_plain(path: Seq<char>, extension: Seq<char>)
    requires
        file_name(path) is Some,
        plain_extension(extension),
    ensures
        file_name(replaced_extension(path, extension)) is Some,
        trimmed_len(replaced_extension(path, extension)) == replaced_extension(
            path,
            extension,
        ).len(),
        stem_path(replaced_extension(path, extension)) == stem_path(path),
        extension_of(replaced_extension(path, extension)) == Some(extension),
{
    let end = trimmed_len(path);
    let start = segment_start(path, end);
    let name = path.subrange(start as int, end as int);
    let stem = stem_len(name);
    let out = replaced_extension(path, extension);
    lemma_file_name(path);
    lemma_segment_start(path, end);
    lemma_last_dot(name);
    assert forall|i: int| start <= i < out.len() implies out[i] != '/' by {
        if i < start + stem {
            assert(out[i] == path[i]);
        } else if i > start + stem {
            assert(out[i] == extension[i - start - stem - 1]);
        }
    }
    lemma_segment_start_is(out, out.len(), start);
    let out_name = out.subrange(start as int, out.len() as int);
    assert forall|i: int| stem < i < out_name.len() implies out_name[i] != '.' by {
        assert(out_name[i] == extension[i - stem - 1]);
    }
    lemma_last_dot_is(out_name, stem);
}

/// Replacing the extension of a path by the one it has, where the path ends
/// in its file name and that extension is not empty, changes nothing.
proof fn lemma_replaced_by_own(path: Seq<char>)
    requires
        extension_of(path) is Some,
        extension_of(path)->0.len() > 0,
        trimmed_len(path) == path.len(),
    ensures
        replaced_extension(path, extension_of(path)->0) == path,
{
    let start = segment_start(path, path.len());
    let name = path.subrange(start as int, path.len() as int);
    lemma_file_name(path);
    lemma_last_dot(name);
}

/// Under a directory, a path with a file name keeps that file name: with a
/// prefix that ends in a separator, the trimmed length and the start of the
/// file name move by the length of the prefix.
proof fn lemma_prefixed(prefix: Seq<char>, path: Seq<char>)
    requires
        prefix.len() > 0,
        prefix.last() == '/',
        trimmed_len(path) > 0,
    ensures
        trimmed_len(prefix + path) == prefix.len() + trimmed_len(path),
        segment_start(prefix + path, trimmed_len(prefix + path)) == prefix.len() + segment_start(
            path,
            trimmed_len(path),
        ),
    decreases path.len(),
{
    let whole = prefix + path;
    let dropped = path.last() == '/' || (path.last() == '.' && (path.len() == 1 || path[path.len()
        - 2] == '/'));
    if dropped {
        assert(whole.drop_last() =~= prefix + path.drop_last());
        lemma_prefixed(prefix, path.drop_last());
        let end = trimmed_len(path);
        lemma_trimmed_len(path.drop_last());
        lemma_segment_start_same(path, path.drop_last(), end);
        lemma_segment_start_same(whole, whole.drop_last(), prefix.len() + end);
    } else {
        let end = path.len();
        let start = segment_start(path, end);
        lemma_segment_start(path, end);
        assert forall|i: int| prefix.len() + start <= i < whole.len() implies whole[i] != '/' by {
            assert(whole[i] == path[i - prefix.len()]);
        }
        lemma_segment_start_is(whole, whole.len(), prefix.len() + start);
    }
}

} // verus!
