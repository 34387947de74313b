//! Paths as text.
//!
//! A path is held as a string with `/` between its components. Its
//! components are the pieces between the separators that are not empty,
//! and before them the root `/` where the path begins with a separator.

use vstd::prelude::*;
use crate::text::append_chars;
use crate::text::append_str;
use crate::text::chars_of;
use crate::text::is_prefix_chars;
use crate::text::join_texts;
use crate::text::join_with;
use crate::text::lemma_last_piece;
use crate::text::lowercase_text;
use crate::text::to_lowercase;
use crate::text::rows;
use crate::text::split_chars;
use crate::text::split_on;
use crate::text::starts_with;
use crate::text::text_between;
use crate::text::text_of;
use crate::text::texts;

verus! {

/// The character between the components of a path.
pub const SEPARATOR: char = '/';

/// The text of the separator alone.
pub open spec fn separator_text() -> Seq<char> {
    seq![SEPARATOR]
}

/// The pieces that are not empty, in order.
pub open spec fn filled(pieces: Seq<Seq<char>>) -> Seq<Seq<char>>
    decreases pieces.len(),
{
    if pieces.len() == 0 {
        Seq::empty()
    } else if pieces.last().len() > 0 {
        filled(pieces.drop_last()).push(pieces.last())
    } else {
        filled(pieces.drop_last())
    }
}

/// The components of the path `s`.
pub open spec fn components(s: Seq<char>) -> Seq<Seq<char>> {
    let names = filled(split_on(s, SEPARATOR));
    if s.len() > 0 && s[0] == SEPARATOR {
        seq![separator_text()] + names
    } else {
        names
    }
}

/// The text of a path: its components with a separator between each
/// two of them.
pub open spec fn path_text(s: Seq<char>) -> Seq<char> {
    join_with(components(s), separator_text())
}

/// The text of the directory that holds the path `s`: the text of the
/// path without its last component.
pub open spec fn parent_text(s: Seq<char>) -> Seq<char> {
    if components(s).len() == 0 {
        Seq::empty()
    } else {
        join_with(components(s).drop_last(), separator_text())
    }
}

/// The last piece of the path `s`: what follows its last separator.
pub open spec fn file_name_of(s: Seq<char>) -> Seq<char> {
    split_on(s, SEPARATOR).last()
}

/// The path `s` without its last piece: all of it up to its last
/// separator, which is kept; empty where it holds no separator.
pub open spec fn head_of(s: Seq<char>) -> Seq<char> {
    s.take(s.len() - file_name_of(s).len())
}

/// `path_arg` is written from the root, or from the home directory.
pub open spec fn full_path(s: Seq<char>) -> bool {
    seq!['/'].is_prefix_of(s) || seq!['~', '/'].is_prefix_of(s)
}

/// The components of `current` that are not, at the same place, a
/// component of `root`.
pub open spec fn beyond_root(current: Seq<Seq<char>>, root: Seq<Seq<char>>) -> Seq<Seq<char>>
    decreases current.len(),
{
    if current.len() == 0 {
        Seq::empty()
    } else {
        let before = beyond_root(current.drop_last(), root);
        let at = current.len() - 1;
        if at < root.len() && root[at] == current[at] {
            before
        } else {
            before.push(current[at])
        }
    }
}

/// The components of the path `current` below the path `root`; none
/// where there is no root.
pub open spec fn relative_parts_of(current: Seq<char>, root: Option<Seq<char>>) -> Seq<Seq<char>> {
    match root {
        Some(r) => beyond_root(components(current), components(r)),
        None => Seq::empty(),
    }
}

/// The path `current` as seen from `root`: its components below the
/// root with separators between them, or `current` itself where there
/// are none.
pub open spec fn relative_path_of(current: Seq<char>, root: Option<Seq<char>>) -> Seq<char> {
    let parts = relative_parts_of(current, root);
    if parts.len() > 0 {
        join_with(parts, separator_text())
    } else {
        current
    }
}

/// The directories `dirs` as a path from the root.
pub open spec fn rooted(dirs: Seq<Seq<char>>) -> Seq<char> {
    separator_text() + join_with(dirs, separator_text())
}

/// The entry `token` of a list of directories to leave out names the
/// directory whose components below the root are `dirs`: a token that
/// begins with a separator is a path from the root that `dirs` begins
/// with; any other token is the name of one of the components.
pub open spec fn names_dir(token: Seq<char>, dirs: Seq<Seq<char>>) -> bool {
    if token.len() > 0 && token[0] == SEPARATOR {
        token.is_prefix_of(rooted(dirs))
    } else {
        dirs.contains(token)
    }
}

/// Some entry of `tokens` names the directory `dirs`.
pub open spec fn dir_excluded(tokens: Seq<Seq<char>>, dirs: Seq<Seq<char>>) -> bool {
    exists|i: int| 0 <= i < tokens.len() && names_dir(#[trigger] tokens[i], dirs)
}

/// One of `dirs` begins with a dot.
pub open spec fn any_hidden(dirs: Seq<Seq<char>>) -> bool {
    exists|i: int| 0 <= i < dirs.len() && is_hidden_name(#[trigger] dirs[i])
}

/// The name begins with a dot.
pub open spec fn is_hidden_name(name: Seq<char>) -> bool {
    name.len() > 0 && name[0] == '.'
}

/// The extension of the file name `name` as it is written: what
/// follows its last dot, unless that dot is its first character or
/// there is none; then it is empty.
pub open spec fn raw_extension_of(name: Seq<char>) -> Seq<char> {
    let last = split_on(name, '.').last();
    if last.len() + 1 < name.len() {
        last
    } else {
        Seq::empty()
    }
}

/// The extension of the file name `name`, in lower case.
pub open spec fn extension_of(name: Seq<char>) -> Seq<char> {
    lowercase_text(raw_extension_of(name))
}

/// Whether `path_arg` is written from the root, or from the home
/// directory.
pub fn is_full_path(path_arg: &str) -> (r: bool)
    ensures
        r == full_path(path_arg@),
{
    let v = chars_of(path_arg);
    let n: usize = v.len();
    let r = (n >= 1 && v[0] == '/') || (n >= 2 && v[0] == '~' && v[1] == '/');
    proof {
        let a = seq!['/'];
        let b = seq!['~', '/'];
        if n >= 1 && v[0] == '/' {
            assert(v@.subrange(0, 1) =~= a);
        }
        if n >= 2 && v[0] == '~' && v[1] == '/' {
            assert(v@.subrange(0, 2) =~= b);
        }
        if a.is_prefix_of(v@) {
            assert(v@.subrange(0, 1)[0] == a[0]);
        }
        if b.is_prefix_of(v@) {
            assert(v@.subrange(0, 2)[0] == b[0]);
            assert(v@.subrange(0, 2)[1] == b[1]);
        }
    }
    r
}

/// The path begins with the separator.
pub fn directory_ref_starts_with_separator(path_ref: &str) -> (r: bool)
    ensures
        r == (path_ref@.len() > 0 && path_ref@[0] == SEPARATOR),
{
    let v = chars_of(path_ref);
    v.len() > 0 && v[0] == SEPARATOR
}

/// The last piece of a path: the name of the file.
pub fn path_string_to_file_name(path_ref: &str) -> (r: String)
    ensures
        r@ == file_name_of(path_ref@),
{
    let v = chars_of(path_ref);
    let pieces = split_chars(&v, SEPARATOR);
    proof {
        crate::text::lemma_split_nonempty(v@, SEPARATOR);
    }
    text_of(&pieces[pieces.len() - 1])
}

/// A path without its last piece, with the separator that ended it.
pub fn path_string_to_head(path_ref: &str) -> (r: String)
    ensures
        r@ == head_of(path_ref@),
{
    let v = chars_of(path_ref);
    let pieces = split_chars(&v, SEPARATOR);
    proof {
        crate::text::lemma_split_nonempty(v@, SEPARATOR);
        lemma_last_piece(v@, SEPARATOR);
    }
    let name_len: usize = pieces[pieces.len() - 1].len();
    text_between(&v, 0, v.len() - name_len)
}

/// The components of a path.
pub fn path_components(path: &str) -> (parts: Vec<String>)
    ensures
        texts(parts@) == components(path@),
{
    let v = chars_of(path);
    let pieces = split_chars(&v, SEPARATOR);
    let mut parts: Vec<String> = Vec::new();
    if v.len() > 0 && v[0] == SEPARATOR {
        let mut root: String = String::new();
        root.push(SEPARATOR);
        parts.push(root);
        assert(parts@[0]@ == separator_text());
    }
    let ghost lead = texts(parts@);
    let mut i: usize = 0;
    while i < pieces.len()
        invariant
            i <= pieces.len(),
            texts(parts@) == lead + filled(rows(pieces@).take(i as int)),
        decreases pieces.len() - i,
    {
        proof {
            let upto = rows(pieces@).take(i + 1);
            assert(upto.drop_last() == rows(pieces@).take(i as int));
            assert(upto.last() == pieces@[i as int]@);
        }
        if pieces[i].len() > 0 {
            let ghost before = texts(parts@);
            let name = text_of(&pieces[i]);
            parts.push(name);
            assert(texts(parts@) == before.push(pieces@[i as int]@));
        }
        i += 1;
    }
    assert(rows(pieces@).take(pieces.len() as int) == rows(pieces@));
    proof {
        if v.len() > 0 && v[0] == SEPARATOR {
            assert(lead == seq![separator_text()]);
        } else {
            assert(lead + filled(rows(pieces@)) == filled(rows(pieces@)));
        }
    }
    parts
}

/// The text of a path: its components with a separator between each
/// two of them.
pub fn path_to_string(ref_path: &str) -> (r: String)
    ensures
        r@ == path_text(ref_path@),
{
    let parts = path_components(ref_path);
    let r = join_texts(&parts, "/");
    proof {
        reveal_strlit("/");
        assert("/"@ == separator_text());
    }
    r
}

/// The text of the directory that holds `path`.
pub fn parent_path_string(path: &str) -> (r: String)
    ensures
        r@ == parent_text(path@),
{
    let mut parts = path_components(path);
    let ghost all = texts(parts@);
    if parts.len() > 0 {
        parts.pop();
    }
    proof {
        if all.len() > 0 {
            assert(texts(parts@) == all.drop_last());
        }
        reveal_strlit("/");
        assert("/"@ == separator_text());
    }
    join_texts(&parts, "/")
}

/// The directories `dirs` as a path from the root.
pub fn to_os_directory_string(dirs: &Vec<String>) -> (r: String)
    ensures
        r@ == rooted(texts(dirs@)),
{
    proof {
        reveal_strlit("/");
        assert("/"@ == separator_text());
    }
    let joined = join_texts(dirs, "/");
    let mut acc: Vec<char> = Vec::new();
    acc.push(SEPARATOR);
    append_str(&mut acc, joined.as_str());
    text_of(&acc)
}

/// One of `dirs` is `segment`.
pub fn strings_contain_str(dirs: &Vec<String>, segment: &str) -> (r: bool)
    ensures
        r == texts(dirs@).contains(segment@),
{
    let mut i: usize = 0;
    while i < dirs.len()
        invariant
            i <= dirs.len(),
            forall|j: int| 0 <= j < i ==> texts(dirs@)[j] != segment@,
        decreases dirs.len() - i,
    {
        if dirs[i].as_str().eq(segment) {
            assert(texts(dirs@)[i as int] == segment@);
            return true;
        }
        i += 1;
    }
    false
}

/// The components of the path `current_path` below the path `root`.
pub fn path_to_relative_parts(current_path: &str, root: Option<&str>) -> (parts: Vec<String>)
    ensures
        texts(parts@) == relative_parts_of(
            current_path@,
            match root {
                Some(r) => Some(r@),
                None => None,
            },
        ),
{
    let mut parts: Vec<String> = Vec::new();
    match root {
        Some(root_path) => {
            let root_comps = path_components(root_path);
            let comps = path_components(current_path);
            let mut ci: usize = 0;
            while ci < comps.len()
                invariant
                    ci <= comps.len(),
                    texts(parts@) == beyond_root(
                        texts(comps@).take(ci as int),
                        texts(root_comps@),
                    ),
                decreases comps.len() - ci,
            {
                proof {
                    let upto = texts(comps@).take(ci + 1);
                    assert(upto.drop_last() == texts(comps@).take(ci as int));
                    assert(upto[ci as int] == comps@[ci as int]@);
                    if ci < root_comps.len() {
                        assert(texts(root_comps@)[ci as int] == root_comps@[ci as int]@);
                    }
                }
                let is_root_part = ci < root_comps.len() && root_comps[ci].as_str().eq(
                    comps[ci].as_str(),
                );
                if !is_root_part {
                    let ghost before = texts(parts@);
                    parts.push(comps[ci].clone());
                    assert(texts(parts@) == before.push(comps@[ci as int]@));
                }
                ci += 1;
            }
            assert(texts(comps@).take(comps.len() as int) == texts(comps@));
        },
        None => {
            assert(texts(parts@) == Seq::<Seq<char>>::empty());
        },
    }
    parts
}

/// The path `current_path` as seen from `root`.
pub fn path_to_relative_path(current_path: &str, root: Option<&str>) -> (r: String)
    ensures
        r@ == relative_path_of(
            current_path@,
            match root {
                Some(r) => Some(r@),
                None => None,
            },
        ),
{
    let parts = path_to_relative_parts(current_path, root);
    if parts.len() > 0 {
        proof {
            reveal_strlit("/");
            assert("/"@ == separator_text());
        }
        join_texts(&parts, "/")
    } else {
        current_path.to_owned()
    }
}

/// The name begins with a dot.
pub fn is_hidden(name: &str) -> (r: bool)
    ensures
        r == is_hidden_name(name@),
{
    let v = chars_of(name);
    v.len() > 0 && v[0] == '.'
}

/// One of `dirs` begins with a dot.
pub fn any_hidden_part(dirs: &Vec<String>) -> (r: bool)
    ensures
        r == any_hidden(texts(dirs@)),
{
    let mut i: usize = 0;
    while i < dirs.len()
        invariant
            i <= dirs.len(),
            forall|j: int| 0 <= j < i ==> !is_hidden_name(#[trigger] texts(dirs@)[j]),
        decreases dirs.len() - i,
    {
        if is_hidden(dirs[i].as_str()) {
            assert(is_hidden_name(texts(dirs@)[i as int]));
            return true;
        }
        i += 1;
    }
    false
}

/// Some entry of `e_dirs` names the directory whose components below
/// the root are `dirs`.
pub fn names_excluded_dir(e_dirs: &Vec<String>, dirs: &Vec<String>) -> (r: bool)
    ensures
        r == dir_excluded(texts(e_dirs@), texts(dirs@)),
{
    let mut i: usize = 0;
    while i < e_dirs.len()
        invariant
            i <= e_dirs.len(),
            forall|j: int| 0 <= j < i ==> !names_dir(#[trigger] texts(e_dirs@)[j], texts(dirs@)),
        decreases e_dirs.len() - i,
    {
        let token = e_dirs[i].as_str();
        let named = if directory_ref_starts_with_separator(token) {
            let whole = to_os_directory_string(dirs);
            is_prefix_chars(token, whole.as_str())
        } else {
            strings_contain_str(dirs, token)
        };
        if named {
            assert(names_dir(texts(e_dirs@)[i as int], texts(dirs@)));
            return true;
        }
        i += 1;
    }
    false
}

/// The extension of a file name, in lower case.
pub fn extract_extension(file_name: &str) -> (r: String)
    ensures
        r@ == extension_of(file_name@),
{
    let written = file_extension(file_name);
    to_lowercase(written.as_str())
}

/// The extension of a file name as it is written.
pub fn file_extension(file_name: &str) -> (r: String)
    ensures
        r@ == raw_extension_of(file_name@),
{
    let v = chars_of(file_name);
    let pieces = split_chars(&v, '.');
    proof {
        crate::text::lemma_split_nonempty(v@, '.');
    }
    let last = &pieces[pieces.len() - 1];
    if last.len() < v.len() && last.len() + 1 < v.len() {
        text_of(last)
    } else {
        String::new()
    }
}

/// The name pattern that stands for several paths which the shell wrote
/// out in place of one: the head of the first path, and the file names
/// of all of them as alternatives in round brackets.
pub fn parse_expanded_path_args(paths: &Vec<String>) -> (r: String)
    requires
        paths@.len() > 0,
    ensures
        r@ == head_of(paths@[0]@) + seq!['('] + join_with(
            Seq::new(paths@.len(), |i: int| file_name_of(paths@[i]@)),
            seq!['|'],
        ) + seq![')'],
{
    let mut names: Vec<String> = Vec::new();
    let mut i: usize = 0;
    while i < paths.len()
        invariant
            i <= paths.len(),
            texts(names@) == Seq::new(i as nat, |k: int| file_name_of(paths@[k]@)),
        decreases paths.len() - i,
    {
        let ghost before = texts(names@);
        let name = path_string_to_file_name(paths[i].as_str());
        names.push(name);
        assert(texts(names@) == before.push(file_name_of(paths@[i as int]@)));
        assert(texts(names@) == Seq::new((i + 1) as nat, |k: int| file_name_of(paths@[k]@)));
        i += 1;
    }
    let head = path_string_to_head(paths[0].as_str());
    let joined = join_texts(&names, "|");
    proof {
        reveal_strlit("|");
        assert("|"@ == seq!['|']);
    }
    let mut acc: Vec<char> = chars_of(head.as_str());
    acc.push('(');
    append_str(&mut acc, joined.as_str());
    acc.push(')');
    text_of(&acc)
}

} // verus!
