use vstd::prelude::*;
use crate::chars::{chars_of, push_char};

verus! {

/// The file name of `path`: what follows its last `/`, or all of it where it
/// holds none.
pub open spec fn file_name_of(path: Seq<char>) -> Seq<char>
    decreases path.len(),
{
    if path.len() == 0 || path.last() == '/' {
        Seq::empty()
    } else {
        file_name_of(path.drop_last()).push(path.last())
    }
}

/// Whether the file name of `path` ends in a dot and `ext`, with at least one
/// character of the name before the dot.
pub open spec fn has_extension(path: Seq<char>, ext: Seq<char>) -> bool {
    let stem = path.len() - ext.len() - 1;
    &&& stem >= 1
    &&& path[stem - 1] != '/'
    &&& path.skip(stem) == seq!['.'] + ext
}

/// Whether the file name of `path` begins with `~$`, the mark of the lock file
/// that an office suite keeps beside an open document.
pub open spec fn is_lock_file(path: Seq<char>) -> bool {
    let name = file_name_of(path);
    name.len() >= 2 && name[0] == '~' && name[1] == '$'
}

/// The file name of `path` is the part of it from `start` on, where that part
/// holds no `/` and either begins the path or follows a `/`.
pub proof fn lemma_file_name_from(path: Seq<char>, start: int)
    requires
        0 <= start <= path.len(),
        start == 0 || path[start - 1] == '/',
        forall|j: int| start <= j < path.len() ==> path[j] != '/',
    ensures
        file_name_of(path) == path.skip(start),
    decreases path.len() - start,
{
    if start == path.len() {
        assert(path.skip(start) =~= Seq::<char>::empty());
    } else {
        let shorter = path.drop_last();
        lemma_file_name_from(shorter, start);
        assert(shorter.skip(start).push(path.last()) =~= path.skip(start));
    }
}

/// The file name is the end of the path, holds no `/`, and what stands before
/// it is empty or ends in `/`.
pub proof fn lemma_file_name_is_last_component(path: Seq<char>)
    ensures
        file_name_of(path).len() <= path.len(),
        file_name_of(path) == path.skip(path.len() - file_name_of(path).len()),
        !file_name_of(path).contains('/'),
        file_name_of(path).len() == path.len() || path[path.len() - file_name_of(path).len() - 1]
            == '/',
    decreases path.len(),
{
    if path.len() == 0 || path.last() == '/' {
        assert(path.skip(path.len() as int) =~= Seq::<char>::empty());
    } else {
        let shorter = path.drop_last();
        lemma_file_name_is_last_component(shorter);
        let name = file_name_of(shorter);
        assert(name.push(path.last()) =~= path.skip(path.len() - name.len() - 1));
        assert forall|j: int| 0 <= j < name.len() + 1 implies name.push(path.last())[j] != '/' by {
            if j < name.len() {
                assert(name.contains(name[j]));
            }
        }
    }
}

/// Where the file name of `path` starts.
fn file_name_start(chars: &Vec<char>) -> (start: usize)
    ensures
        start <= chars.len(),
        file_name_of(chars@) == chars@.skip(start as int),
{
    let mut start: usize = chars.len();
    while start > 0 && chars[start - 1] != '/'
        invariant
            start <= chars.len(),
            forall|j: int| start <= j < chars.len() ==> chars[j] != '/',
        decreases start,
    {
        start -= 1;
    }
    proof {
        lemma_file_name_from(chars@, start as int);
    }
    start
}

/// The file name of `path`.
pub fn file_name(path: &str) -> (name: String)
    ensures
        name@ == file_name_of(path@),
{
    let chars = chars_of(path);
    let start = file_name_start(&chars);
    let mut name = String::new();
    let mut i: usize = start;
    while i < chars.len()
        invariant
            start <= i <= chars.len(),
            name@ == chars@.subrange(start as int, i as int),
        decreases chars.len() - i,
    {
        push_char(&mut name, chars[i]);
        i += 1;
    }
    assert(chars@.subrange(start as int, chars.len() as int) =~= chars@.skip(start as int));
    name
}

/// Whether `path` names a lock file.
pub fn names_lock_file(path: &str) -> (lock: bool)
    ensures
        lock == is_lock_file(path@),
{
    let chars = chars_of(path);
    let start = file_name_start(&chars);
    chars.len() - start >= 2 && chars[start] == '~' && chars[start + 1] == '$'
}

/// Whether `path` has the extension `ext`.
pub fn ends_with_extension(path: &str, ext: &str) -> (found: bool)
    ensures
        found == has_extension(path@, ext@),
{
    let chars = chars_of(path);
    let tail = chars_of(ext);
    if chars.len() < 2 || tail.len() > chars.len() - 2 {
        return false;
    }
    let stem: usize = chars.len() - tail.len() - 1;
    if chars[stem - 1] == '/' || chars[stem] != '.' {
        assert(path@.skip(stem as int)[0] == path@[stem as int]);
        return false;
    }
    let mut i: usize = 0;
    while i < tail.len()
        invariant
            i <= tail.len(),
            chars@ == path@,
            tail@ == ext@,
            stem + 1 + tail.len() == chars.len(),
            forall|j: int| 0 <= j < i ==> chars[stem + 1 + j] == tail[j],
        decreases tail.len() - i,
    {
        if chars[stem + 1 + i] != tail[i] {
            assert(path@.skip(stem as int)[1 + i] == path@[stem + 1 + i]);
            assert((seq!['.'] + ext@)[1 + i] == ext@[i as int]);
            return false;
        }
        i += 1;
    }
    assert(path@.skip(stem as int) =~= seq!['.'] + ext@);
    true
}

} // verus!
