//! Windows paths as texts.
//!
//! A path starts with a drive (`C:`) or a share (`\\server\share`), if any, and both `\` and `/`
//! separate its parts. What a part is called, and which folder it lies in, is read off the text;
//! no disk is asked.

use vstd::prelude::*;

use crate::text::chars_of;
use crate::text::same_text;
use crate::text::slice_text;

verus! {

pub open spec fn separator(c: char) -> bool {
    c == '\\' || c == '/'
}

fn is_separator(c: char) -> (r: bool)
    ensures
        r == separator(c),
{
    c == '\\' || c == '/'
}

pub open spec fn letter(c: char) -> bool {
    'a' <= c <= 'z' || 'A' <= c <= 'Z'
}

/// Where the first separator at or behind a position stands, or the end.
pub open spec fn next_separator(s: Seq<char>, from: int) -> int
    decreases s.len() - from,
{
    if from < 0 || from >= s.len() || separator(s[from]) {
        from
    } else {
        next_separator(s, from + 1)
    }
}

/// The length of the drive or the share that a path starts with.
pub open spec fn prefix_end(s: Seq<char>) -> int {
    if s.len() >= 2 && letter(s[0]) && s[1] == ':' {
        2
    } else if s.len() >= 2 && separator(s[0]) && separator(s[1]) {
        let server = next_separator(s, 2);
        let share = next_separator(s, server + 1);
        if server > 2 && server < s.len() && share > server + 1 {
            share
        } else {
            0
        }
    } else {
        0
    }
}

/// The length of what is never taken off a path: its drive or share, and the root.
pub open spec fn base_end(s: Seq<char>) -> int {
    let end = prefix_end(s);
    if end < s.len() && separator(s[end]) {
        end + 1
    } else {
        end
    }
}

/// A path without separators and `.` parts at its end, down to its base.
pub open spec fn tail_trimmed(s: Seq<char>, base: int) -> Seq<char>
    decreases s.len(),
{
    if s.len() > base && s.len() > 0 && separator(s.last()) {
        tail_trimmed(s.drop_last(), base)
    } else if s.len() > base && s.len() >= 2 && s.last() == '.' && separator(s[s.len() - 2]) {
        tail_trimmed(s.drop_last(), base)
    } else {
        s
    }
}

/// Where the last part of a path starts.
pub open spec fn last_part(s: Seq<char>, base: int) -> int
    decreases s.len(),
{
    if s.len() <= base || s.len() == 0 {
        s.len() as int
    } else if separator(s.last()) {
        s.len() as int
    } else {
        last_part(s.drop_last(), base)
    }
}

/// The name of the file or folder that a path leads to.
pub open spec fn name_of(s: Seq<char>) -> Option<Seq<char>> {
    let t = tail_trimmed(s, base_end(s));
    let name = t.skip(last_part(t, base_end(s)));
    if name.len() == 0 || name == seq!['.'] || name == seq!['.', '.'] {
        None
    } else {
        Some(name)
    }
}

/// The folder of a path.
pub open spec fn folder_of(s: Seq<char>) -> Option<Seq<char>> {
    let t = tail_trimmed(s, base_end(s));
    let start = last_part(t, base_end(s));
    if start == t.len() {
        None
    } else {
        Some(tail_trimmed(t.take(start), base_end(s)))
    }
}

/// Where the last dot of a name stands, or nothing where there is none.
pub open spec fn last_dot(name: Seq<char>) -> Option<int>
    decreases name.len(),
{
    if name.len() == 0 {
        None
    } else if name.last() == '.' {
        Some(name.len() - 1)
    } else {
        last_dot(name.drop_last())
    }
}

/// A name without its extension; a dot at the start begins no extension.
pub open spec fn stem(name: Seq<char>) -> Seq<char> {
    match last_dot(name) {
        Some(at) => if at > 0 {
            name.take(at)
        } else {
            name
        },
        None => name,
    }
}

/// The extension of a name.
pub open spec fn suffix(name: Seq<char>) -> Option<Seq<char>> {
    match last_dot(name) {
        Some(at) => if at > 0 {
            Some(name.skip(at + 1))
        } else {
            None
        },
        None => None,
    }
}

/// A path inside a folder. One with a drive or a share of its own stands for itself, one from the
/// root keeps the drive or share of the folder.
pub open spec fn joined_path(folder: Seq<char>, rest: Seq<char>) -> Seq<char> {
    if prefix_end(rest) > 0 {
        rest
    } else if rest.len() > 0 && separator(rest[0]) {
        folder.take(prefix_end(folder)) + rest
    } else if folder.len() == 0 || separator(folder.last()) || (folder.len() == 2 && prefix_end(folder)
        == 2) {
        folder + rest
    } else {
        folder.push('\\') + rest
    }
}

/// The path with another name in place of its last one; where it has no name, with one more.
pub open spec fn renamed(s: Seq<char>, name: Seq<char>) -> Seq<char> {
    if name_of(s) is Some {
        joined_path(folder_of(s)->0, name)
    } else {
        joined_path(s, name)
    }
}

fn find_separator(v: &Vec<char>, from: usize) -> (r: usize)
    requires
        from <= v.len(),
    ensures
        r == next_separator(v@, from as int),
        from <= r <= v.len(),
{
    let mut i: usize = from;
    while i < v.len() && !is_separator(v[i])
        invariant
            from <= i <= v.len(),
            next_separator(v@, from as int) == next_separator(v@, i as int),
        decreases v.len() - i,
    {
        i += 1;
    }
    i
}

fn prefix_length(v: &Vec<char>) -> (r: usize)
    ensures
        r == prefix_end(v@),
        r <= v.len(),
{
    let mut end: usize = 0;
    if v.len() >= 2 && (('a' <= v[0] && v[0] <= 'z') || ('A' <= v[0] && v[0] <= 'Z')) && v[1]
        == ':' {
        end = 2;
    } else if v.len() >= 2 && is_separator(v[0]) && is_separator(v[1]) {
        let server = find_separator(v, 2);
        if server > 2 && server < v.len() {
            let share = find_separator(v, server + 1);
            if share > server + 1 {
                end = share;
            }
        }
    }
    end
}

fn base_length(v: &Vec<char>) -> (r: usize)
    ensures
        r == base_end(v@),
        r <= v.len(),
{
    let end = prefix_length(v);
    if end < v.len() && is_separator(v[end]) {
        end + 1
    } else {
        end
    }
}

fn trim_tail(v: &Vec<char>, base: usize, length: usize) -> (r: usize)
    requires
        length <= v.len(),
    ensures
        r <= length,
        v@.take(r as int) == tail_trimmed(v@.take(length as int), base as int),
{
    let mut n: usize = length;
    while n > base && (is_separator(v[n - 1]) || (n >= 2 && v[n - 1] == '.' && is_separator(
        v[n - 2],
    )))
        invariant
            n <= length <= v.len(),
            tail_trimmed(v@.take(length as int), base as int) == tail_trimmed(
                v@.take(n as int),
                base as int,
            ),
        decreases n,
    {
        proof {
            assert(v@.take(n as int).drop_last() =~= v@.take(n - 1));
            assert(v@.take(n as int).last() == v@[n - 1]);
        }
        n -= 1;
    }
    proof {
        if n > base {
            assert(v@.take(n as int).last() == v@[n - 1]);
        }
    }
    n
}

fn last_start(v: &Vec<char>, base: usize, length: usize) -> (r: usize)
    requires
        length <= v.len(),
    ensures
        r <= length,
        r == last_part(v@.take(length as int), base as int),
{
    let mut n: usize = length;
    while n > base && !is_separator(v[n - 1])
        invariant
            n <= length <= v.len(),
            last_part(v@.take(length as int), base as int) == last_part(
                v@.take(n as int),
                base as int,
            ),
        decreases n,
    {
        proof {
            assert(v@.take(n as int).drop_last() =~= v@.take(n - 1));
            assert(v@.take(n as int).last() == v@[n - 1]);
        }
        n -= 1;
    }
    proof {
        if n > base {
            assert(v@.take(n as int).last() == v@[n - 1]);
        }
    }
    n
}

/// The text of an optional string.
pub open spec fn text_of(s: Option<String>) -> Option<Seq<char>> {
    match s {
        Some(s) => Some(s@),
        None => None,
    }
}

/// The name of the file or folder that a path leads to.
pub fn file_name(path: &str) -> (r: Option<String>)
    ensures
        text_of(r) == name_of(path@),
{
    let v = chars_of(path);
    let base = base_length(&v);
    let length: usize = v.len();
    proof {
        assert(v@.take(length as int) =~= v@);
    }
    let end = trim_tail(&v, base, length);
    let start = last_start(&v, base, end);
    let name = slice_text(&v, start, end);
    proof {
        let t = tail_trimmed(path@, base_end(path@));
        assert(t == v@.take(end as int));
        assert(name@ =~= t.skip(last_part(t, base_end(path@))));
        reveal_strlit(".");
        reveal_strlit("..");
        assert("."@ =~= seq!['.']);
        assert(".."@ =~= seq!['.', '.']);
    }
    if start == end || same_text(name.as_str(), ".") || same_text(name.as_str(), "..") {
        None
    } else {
        Some(name)
    }
}

/// The folder of a path.
pub fn parent(path: &str) -> (r: Option<String>)
    ensures
        text_of(r) == folder_of(path@),
{
    let v = chars_of(path);
    let base = base_length(&v);
    let length: usize = v.len();
    proof {
        assert(v@.take(length as int) =~= v@);
    }
    let end = trim_tail(&v, base, length);
    let start = last_start(&v, base, end);
    proof {
        let t = tail_trimmed(path@, base_end(path@));
        assert(t == v@.take(end as int));
        assert(t.take(start as int) =~= v@.take(start as int));
    }
    if start == end {
        return None;
    }
    let folder = trim_tail(&v, base, start);
    let text = slice_text(&v, 0, folder);
    proof {
        assert(text@ =~= v@.take(folder as int));
    }
    Some(text)
}

/// The parts of a path behind its base, from the outermost in. Separators in a row are as good as
/// one, and `.` parts do not count.
pub open spec fn parts_of(s: Seq<char>, base: int) -> Seq<Seq<char>>
    decreases s.len(),
{
    let t = tail_trimmed(s, base);
    let start = last_part(t, base);
    if 0 <= start < t.len() && start < s.len() {
        parts_of(t.take(start), base).push(t.skip(start))
    } else {
        seq![]
    }
}

/// The drive or share of a path with one kind of separator and a drive in upper case.
pub open spec fn prefix_form(s: Seq<char>) -> Seq<char> {
    let prefix = s.take(prefix_end(s)).map_values(
        |c: char|
            if c == '/' {
                '\\'
            } else {
                c
            },
    );
    if prefix_end(s) == 2 && 'a' <= s[0] <= 'z' {
        prefix.update(0, (s[0] as int - 32) as char)
    } else {
        prefix
    }
}

/// A path begins at a root: a share has one of its own.
pub open spec fn rooted(s: Seq<char>) -> bool {
    base_end(s) > prefix_end(s) || prefix_end(s) > 2
}

/// Whether a path leads to a folder or into it, part by part.
pub open spec fn lies_in(path: Seq<char>, folder: Seq<char>) -> bool {
    &&& prefix_form(path) == prefix_form(folder)
    &&& rooted(path) == rooted(folder)
    &&& parts_of(folder, base_end(folder)).is_prefix_of(parts_of(path, base_end(path)))
}

proof fn lemma_tail_shorter(s: Seq<char>, base: int)
    ensures
        tail_trimmed(s, base).len() <= s.len(),
    decreases s.len(),
{
    if s.len() > base && s.len() > 0 && separator(s.last()) {
        lemma_tail_shorter(s.drop_last(), base);
    } else if s.len() > base && s.len() >= 2 && s.last() == '.' && separator(s[s.len() - 2]) {
        lemma_tail_shorter(s.drop_last(), base);
    }
}

fn parts_upto(v: &Vec<char>, base: usize, length: usize) -> (r: Vec<String>)
    requires
        length <= v.len(),
    ensures
        crate::text::views(r@) == parts_of(v@.take(length as int), base as int),
    decreases length,
{
    let end = trim_tail(v, base, length);
    let start = last_start(v, base, end);
    proof {
        lemma_tail_shorter(v@.take(length as int), base as int);
    }
    if start >= end {
        let none: Vec<String> = Vec::new();
        proof {
            assert(crate::text::views(none@) =~= seq![]);
        }
        return none;
    }
    let mut parts = parts_upto(v, base, start);
    let name = slice_text(v, start, end);
    proof {
        let t = v@.take(end as int);
        assert(t.take(start as int) =~= v@.take(start as int));
        assert(name@ =~= t.skip(start as int));
        crate::text::lemma_views_push(parts@, name);
    }
    parts.push(name);
    parts
}

fn prefix_letter(v: &Vec<char>, prefix: usize, at: usize) -> (r: char)
    requires
        at < prefix <= v.len(),
        prefix == prefix_end(v@),
    ensures
        r == prefix_form(v@)[at as int],
{
    let c = v[at];
    if at == 0 && prefix == 2 && 'a' <= c && c <= 'z' {
        let code: u8 = c as u8;
        (code - 32) as char
    } else if c == '/' {
        '\\'
    } else {
        c
    }
}

fn same_prefix(a: &Vec<char>, b: &Vec<char>) -> (r: bool)
    ensures
        r == (prefix_form(a@) == prefix_form(b@)),
{
    let first = prefix_length(a);
    let second = prefix_length(b);
    proof {
        assert(prefix_form(a@).len() == first);
        assert(prefix_form(b@).len() == second);
    }
    if first != second {
        return false;
    }
    let mut i: usize = 0;
    while i < first
        invariant
            i <= first,
            first == second,
            first == prefix_end(a@),
            second == prefix_end(b@),
            first <= a.len(),
            second <= b.len(),
            forall|j: int| 0 <= j < i ==> prefix_form(a@)[j] == prefix_form(b@)[j],
        decreases first - i,
    {
        if prefix_letter(a, first, i) != prefix_letter(b, second, i) {
            return false;
        }
        i += 1;
    }
    proof {
        assert(prefix_form(a@) =~= prefix_form(b@));
    }
    true
}

fn is_rooted(v: &Vec<char>) -> (r: bool)
    ensures
        r == rooted(v@),
{
    let prefix = prefix_length(v);
    base_length(v) > prefix || prefix > 2
}

/// Whether a path leads to a folder or into it, part by part.
pub fn starts_with(path: &str, folder: &str) -> (r: bool)
    ensures
        r == lies_in(path@, folder@),
{
    let outer = chars_of(folder);
    let inner = chars_of(path);
    if !same_prefix(&inner, &outer) || is_rooted(&inner) != is_rooted(&outer) {
        return false;
    }
    proof {
        assert(outer@.take(outer.len() as int) =~= folder@);
        assert(inner@.take(inner.len() as int) =~= path@);
    }
    let folders = parts_upto(&outer, base_length(&outer), outer.len());
    let parts = parts_upto(&inner, base_length(&inner), inner.len());
    let ghost all = crate::text::views(parts@);
    let ghost first = crate::text::views(folders@);
    if folders.len() > parts.len() {
        return false;
    }
    let mut i: usize = 0;
    while i < folders.len()
        invariant
            i <= folders.len() <= parts.len(),
            all == crate::text::views(parts@),
            first == crate::text::views(folders@),
            first == parts_of(folder@, base_end(folder@)),
            all == parts_of(path@, base_end(path@)),
            forall|j: int| 0 <= j < i ==> all[j] == first[j],
        decreases folders.len() - i,
    {
        if !same_text(folders[i].as_str(), parts[i].as_str()) {
            proof {
                assert(first[i as int] != all[i as int]);
                if first.is_prefix_of(all) {
                    assert(all.subrange(0, first.len() as int)[i as int] == first[i as int]);
                }
            }
            return false;
        }
        i += 1;
    }
    proof {
        assert(first =~= all.subrange(0, first.len() as int));
    }
    true
}

fn find_last_dot(v: &Vec<char>) -> (r: Option<usize>)
    ensures
        match r {
            Some(at) => at < v.len() && last_dot(v@) == Some(at as int),
            None => last_dot(v@) is None,
        },
{
    let mut n: usize = v.len();
    proof {
        assert(v@.take(n as int) =~= v@);
    }
    while n > 0
        invariant
            n <= v.len(),
            last_dot(v@) == last_dot(v@.take(n as int)),
        decreases n,
    {
        proof {
            assert(v@.take(n as int).drop_last() =~= v@.take(n - 1));
            assert(v@.take(n as int).last() == v@[n - 1]);
        }
        if v[n - 1] == '.' {
            return Some(n - 1);
        }
        n -= 1;
    }
    None
}

/// The name of the file without its extension.
pub fn file_stem(path: &str) -> (r: Option<String>)
    ensures
        text_of(r) == (match name_of(path@) {
            Some(name) => Some(stem(name)),
            None => None::<Seq<char>>,
        }),
{
    match file_name(path) {
        Some(name) => {
            let v = chars_of(name.as_str());
            match find_last_dot(&v) {
                Some(at) => if at > 0 {
                    let r = slice_text(&v, 0, at);
                    proof {
                        assert(r@ =~= v@.take(at as int));
                    }
                    Some(r)
                } else {
                    Some(name)
                },
                None => Some(name),
            }
        },
        None => None,
    }
}

/// The extension of the file's name.
pub fn extension(path: &str) -> (r: Option<String>)
    ensures
        text_of(r) == (match name_of(path@) {
            Some(name) => suffix(name),
            None => None::<Seq<char>>,
        }),
{
    match file_name(path) {
        Some(name) => {
            let v = chars_of(name.as_str());
            match find_last_dot(&v) {
                Some(at) => if at > 0 {
                    let r = slice_text(&v, at + 1, v.len());
                    proof {
                        assert(r@ =~= v@.skip(at + 1));
                    }
                    Some(r)
                } else {
                    None
                },
                None => None,
            }
        },
        None => None,
    }
}

/// A path inside a folder.
pub fn join(folder: &str, rest: &str) -> (r: String)
    ensures
        r@ == joined_path(folder@, rest@),
{
    let v = chars_of(folder);
    let w = chars_of(rest);
    if prefix_length(&w) > 0 {
        return rest.to_owned();
    }
    let prefix = prefix_length(&v);
    if w.len() > 0 && is_separator(w[0]) {
        let mut r = slice_text(&v, 0, prefix);
        proof {
            assert(r@ =~= folder@.take(prefix as int));
        }
        r.append(rest);
        return r;
    }
    let mut r = folder.to_owned();
    let length: usize = v.len();
    if length > 0 && !is_separator(v[length - 1]) && !(length == 2 && prefix == 2) {
        r.push('\\');
    }
    r.append(rest);
    r
}

/// The path with another name in place of its last one.
pub fn with_file_name(path: &str, name: &str) -> (r: String)
    ensures
        r@ == renamed(path@, name@),
{
    match (file_name(path), parent(path)) {
        (Some(_), Some(folder)) => join(folder.as_str(), name),
        _ => {
            proof {
                lemma_named_has_folder(path@);
            }
            join(path, name)
        },
    }
}

/// A path with a name has a folder.
pub proof fn lemma_named_has_folder(path: Seq<char>)
    ensures
        name_of(path) is Some ==> folder_of(path) is Some,
{
}

/// The path with another extension, or with one where it has none.
pub open spec fn reextended(s: Seq<char>, ext: Seq<char>) -> Seq<char> {
    match name_of(s) {
        Some(name) => {
            let t = tail_trimmed(s, base_end(s));
            t.take(last_part(t, base_end(s)) + stem(name).len()).push('.') + ext
        },
        None => s,
    }
}

/// The path with another extension; one without a name stays as it is.
pub fn with_extension(path: &str, ext: &str) -> (r: String)
    ensures
        r@ == reextended(path@, ext@),
{
    let v = chars_of(path);
    let base = base_length(&v);
    let length: usize = v.len();
    proof {
        assert(v@.take(length as int) =~= v@);
    }
    let end = trim_tail(&v, base, length);
    let start = last_start(&v, base, end);
    match file_stem(path) {
        Some(name) => {
            let name_chars = chars_of(name.as_str());
            proof {
                let t = tail_trimmed(path@, base_end(path@));
                assert(t == v@.take(end as int));
                let whole = name_of(path@)->0;
                assert(whole =~= t.skip(start as int));
                lemma_stem_length(whole);
                assert(name_chars@.len() <= end - start);
                assert(t.take(start + name_chars@.len()) =~= v@.subrange(
                    0,
                    start + name_chars@.len(),
                ));
            }
            let mut r = slice_text(&v, 0, start + name_chars.len());
            r.push('.');
            r.append(ext);
            r
        },
        None => path.to_owned(),
    }
}

proof fn lemma_last_dot(name: Seq<char>)
    ensures
        last_dot(name) is Some ==> 0 <= last_dot(name)->0 < name.len(),
    decreases name.len(),
{
    if name.len() > 0 && name.last() != '.' {
        lemma_last_dot(name.drop_last());
    }
}

proof fn lemma_stem_length(name: Seq<char>)
    ensures
        stem(name).len() <= name.len(),
{
    lemma_last_dot(name);
}

/// A part that can stand behind a separator: no separator in it, no drive, and not a dot or two.
pub open spec fn plain_name(name: Seq<char>) -> bool {
    &&& name.len() > 0
    &&& forall|i: int| 0 <= i < name.len() ==> !separator(#[trigger] name[i])
    &&& name != seq!['.']
    &&& name != seq!['.', '.']
    &&& prefix_end(name) == 0
}

/// A folder on a drive, written without separators or dots at its end beyond the root.
pub open spec fn drive_folder(s: Seq<char>) -> bool {
    &&& s.len() >= 3
    &&& letter(s[0])
    &&& s[1] == ':'
    &&& separator(s[2])
    &&& tail_trimmed(s, 3) == s
}

proof fn lemma_last_part_joined(front: Seq<char>, name: Seq<char>, base: int)
    requires
        0 <= base <= front.len(),
        front.len() == base || separator(front.last()),
        forall|i: int| 0 <= i < name.len() ==> !separator(#[trigger] name[i]),
    ensures
        last_part(front + name, base) == front.len(),
    decreases name.len(),
{
    let s = front + name;
    if name.len() > 0 {
        assert(s.last() == name[name.len() - 1]);
        assert(s.drop_last() =~= front + name.drop_last());
        assert forall|i: int| 0 <= i < name.drop_last().len() implies !separator(
            #[trigger] name.drop_last()[i],
        ) by {
            assert(name.drop_last()[i] == name[i]);
        }
        lemma_last_part_joined(front, name.drop_last(), base);
    } else {
        assert(s =~= front);
    }
}

/// A name put into a folder of a drive is read back, and so is the folder.
pub proof fn law_joined_paths_come_apart(folder: Seq<char>, name: Seq<char>)
    requires
        drive_folder(folder),
        plain_name(name),
    ensures
        name_of(joined_path(folder, name)) == Some(name),
        folder_of(joined_path(folder, name)) == Some(folder),
        drive_folder(joined_path(folder, name)),
{
    let path = joined_path(folder, name);
    assert(!separator(name[0]));
    let front = if separator(folder.last()) {
        folder
    } else {
        folder.push('\\')
    };
    assert(path =~= front + name);
    assert(prefix_end(folder) == 2);
    assert(path[0] == folder[0] && path[1] == folder[1] && path[2] == folder[2]);
    assert(base_end(path) == 3);
    assert(path.last() == name[name.len() - 1]);
    assert(tail_trimmed(path, 3) == path) by {
        if path.last() == '.' && separator(path[path.len() - 2]) {
            if name.len() >= 2 {
                assert(path[path.len() - 2] == name[name.len() - 2]);
            } else {
                assert(name =~= seq!['.']);
            }
        }
    }
    lemma_last_part_joined(front, name, 3);
    assert(path.skip(front.len() as int) =~= name);
    assert(path.take(front.len() as int) =~= front);
    if separator(folder.last()) {
        if folder.len() > 3 {
            // A trimmed folder ends with a separator only at its root.
            lemma_tail_trimmed_shorter(folder.drop_last(), 3);
        }
    } else {
        assert(front.drop_last() =~= folder);
    }
}

proof fn lemma_tail_trimmed_shorter(s: Seq<char>, base: int)
    ensures
        tail_trimmed(s, base).len() <= s.len(),
    decreases s.len(),
{
    if s.len() > base && s.len() > 0 && separator(s.last()) {
        lemma_tail_trimmed_shorter(s.drop_last(), base);
    } else if s.len() > base && s.len() >= 2 && s.last() == '.' && separator(s[s.len() - 2]) {
        lemma_tail_trimmed_shorter(s.drop_last(), base);
    }
}

proof fn lemma_last_dot_stays(front: Seq<char>, tail: Seq<char>)
    requires
        forall|i: int| 0 <= i < tail.len() ==> #[trigger] tail[i] != '.',
    ensures
        last_dot(front + tail) == last_dot(front),
    decreases tail.len(),
{
    if tail.len() == 0 {
        assert(front + tail =~= front);
    } else {
        assert((front + tail).last() == tail[tail.len() - 1]);
        assert((front + tail).drop_last() =~= front + tail.drop_last());
        assert forall|i: int| 0 <= i < tail.drop_last().len() implies #[trigger] tail.drop_last()[i]
            != '.' by {
            assert(tail.drop_last()[i] == tail[i]);
        }
        lemma_last_dot_stays(front, tail.drop_last());
    }
}

/// The suffix of a name is what stands behind its last point, and the stem what stands before it. A
/// point at the beginning parts nothing.
pub proof fn law_names_part_at_their_last_point(base: Seq<char>, ext: Seq<char>)
    requires
        forall|i: int| 0 <= i < ext.len() ==> #[trigger] ext[i] != '.',
    ensures
        base.len() > 0 ==> stem(base + seq!['.'] + ext) == base,
        base.len() > 0 ==> suffix(base + seq!['.'] + ext) == Some(ext),
        stem(seq!['.'] + ext) == seq!['.'] + ext,
        suffix(seq!['.'] + ext) is None,
        stem(ext) == ext,
        suffix(ext) is None,
{
    let front = base + seq!['.'];
    let name = front + ext;
    lemma_last_dot_stays(front, ext);
    assert(front.last() == '.');
    assert(last_dot(front) == Some(base.len() as int));
    assert(name.take(base.len() as int) =~= base);
    assert(name.skip(base.len() as int + 1) =~= ext);
    lemma_last_dot_stays(seq!['.'], ext);
    assert(last_dot(seq!['.']) == Some(0int));
    lemma_last_dot_stays(seq![], ext);
    assert(Seq::<char>::empty() + ext =~= ext);
}

/// Every path lies in itself, and what lies in a folder lies in all that this one lies in.
pub proof fn law_folders_lie_in_folders(path: Seq<char>, middle: Seq<char>, folder: Seq<char>)
    ensures
        lies_in(path, path),
        lies_in(path, middle) && lies_in(middle, folder) ==> lies_in(path, folder),
{
}

} // verus!
