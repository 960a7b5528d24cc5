//! Pasting copied files as the text of their paths.
//!
//! A file manager's copy puts file references on the pasteboard, and the names of the files as
//! text. Before such a copy is pasted, the pasteboard is rewritten to the paths.
use crate::text::{
    chars_of, lines, next_line, newline, push_text, same_chars, string_of, texts, trim, trimmed,
};
use vstd::prelude::*;
use vstd::slice::slice_subrange;

verus! {

/// The key code of V.
pub const KEY_V: u16 = 9;

/// Whether a key press pastes.
pub open spec fn pastes(key_code: u16, command: bool) -> bool {
    key_code == KEY_V && command
}

/// Whether a key press pastes.
pub fn is_paste_shortcut(key_code: u16, command: bool) -> (r: bool)
    ensures
        r == (key_code == KEY_V && command),
        r == pastes(key_code, command),
{
    key_code == KEY_V && command
}

/// The last component of a path: what follows its last slash.
pub open spec fn base_name(path: Seq<char>) -> Seq<char>
    decreases path.len(),
{
    if path.len() == 0 || path.last() == '/' {
        Seq::empty()
    } else {
        base_name(path.drop_last()).push(path.last())
    }
}

/// Whether `name` is the last component of one of the paths.
pub open spec fn names_a_file(paths: Seq<Seq<char>>, name: Seq<char>) -> bool {
    exists|i: int| 0 <= i < paths.len() && base_name(#[trigger] paths[i]) == name
}

/// Whether every line of a text is empty or the name of one of the files, as it stands or but for
/// white space around it.
pub open spec fn only_names(paths: Seq<Seq<char>>, text: Seq<char>) -> bool {
    forall|k: int|
        0 <= k < lines(text).len() ==> trimmed(#[trigger] lines(text)[k]).len() == 0
            || names_a_file(paths, trimmed(lines(text)[k])) || names_a_file(paths, lines(text)[k])
}

/// Whether the pasteboard holds a copy of files: at least one, and no text but their names.
pub open spec fn file_copy(paths: Seq<Seq<char>>, text: Option<Seq<char>>) -> bool {
    paths.len() > 0 && match text {
        Some(text) => only_names(paths, text),
        None => true,
    }
}

/// The paths, one to a line.
pub open spec fn one_to_a_line(paths: Seq<Seq<char>>) -> Seq<char>
    decreases paths.len(),
{
    if paths.len() == 0 {
        Seq::empty()
    } else if paths.len() == 1 {
        paths[0]
    } else {
        paths[0] + newline() + one_to_a_line(paths.drop_first())
    }
}

/// What the pasteboard's text is to be rewritten to, if it is to be.
pub open spec fn rewritten(paths: Seq<Seq<char>>, text: Option<Seq<char>>) -> Option<Seq<char>> {
    if file_copy(paths, text) {
        Some(one_to_a_line(paths))
    } else {
        None
    }
}

/// The paths among what the items of the pasteboard resolved to, in their order.
pub open spec fn present(items: Seq<Option<String>>) -> Seq<Seq<char>>
    decreases items.len(),
{
    if items.len() == 0 {
        Seq::empty()
    } else {
        match items.last() {
            Some(path) => present(items.drop_last()).push(path@),
            None => present(items.drop_last()),
        }
    }
}

/// The URL of a pasteboard item, as it is to be resolved.
pub open spec fn url_to_resolve(url: Seq<char>) -> Seq<char> {
    trimmed(url)
}

/// The URL of a pasteboard item, as it is to be resolved: without white space around it.
pub fn file_url(url: &str) -> (s: String)
    ensures
        s@ == trimmed(url@),
        s@ == url_to_resolve(url@),
{
    let chars = chars_of(url);
    string_of(trim(chars.as_slice()))
}

/// The paths among what the items of the pasteboard resolved to.
pub fn pasteboard_paths(items: &Vec<Option<String>>) -> (paths: Vec<String>)
    ensures
        texts(paths@) == present(items@),
{
    let mut paths: Vec<String> = Vec::new();
    let mut i: usize = 0;
    assert(texts(paths@) =~= present(items@.take(0)));
    while i < items.len()
        invariant
            i <= items@.len(),
            texts(paths@) == present(items@.take(i as int)),
        decreases items@.len() - i,
    {
        let ghost before = paths@;
        assert(items@.take(i + 1).drop_last() =~= items@.take(i as int));
        match &items[i] {
            Some(path) => {
                let copy = path.clone();
                paths.push(copy);
                assert(texts(paths@) =~= texts(before).push(copy@));
            },
            None => {},
        }
        i = i + 1;
    }
    assert(items@.take(i as int) =~= items@);
    paths
}

/// The last component of a path.
pub fn base_name_of(path: &[char]) -> (r: &[char])
    ensures
        r@ == base_name(path@),
{
    let n: usize = path.len();
    let mut i: usize = n;
    proof {
        assert(path@.take(n as int) =~= path@);
        assert(base_name(path@) + path@.skip(n as int) =~= base_name(path@));
    }
    while i > 0 && path[i - 1] != '/'
        invariant
            i <= n,
            n == path@.len(),
            base_name(path@) == base_name(path@.take(i as int)) + path@.skip(i as int),
        decreases i,
    {
        proof {
            let head = path@.take(i as int);
            assert(head.drop_last() =~= path@.take(i - 1));
            assert(base_name(path@.take(i - 1)).push(path@[i - 1]) + path@.skip(i as int)
                =~= base_name(path@.take(i - 1)) + path@.skip(i - 1));
        }
        i = i - 1;
    }
    assert(base_name(path@) =~= path@.skip(i as int));
    slice_subrange(path, i, n)
}

/// Whether `name` is the last component of one of the paths.
fn is_name_of_a_file(paths: &Vec<String>, name: &[char]) -> (r: bool)
    ensures
        r == names_a_file(texts(paths@), name@),
{
    let mut i: usize = 0;
    while i < paths.len()
        invariant
            i <= paths@.len(),
            forall|j: int| 0 <= j < i ==> base_name(#[trigger] texts(paths@)[j]) != name@,
        decreases paths@.len() - i,
    {
        let path = chars_of(paths[i].as_str());
        assert(texts(paths@)[i as int] == path@);
        if same_chars(base_name_of(path.as_slice()), name) {
            return true;
        }
        i = i + 1;
    }
    false
}

/// Whether the pasteboard holds a copy of files.
pub fn is_file_copy(paths: &Vec<String>, text: Option<&str>) -> (r: bool)
    ensures
        r == file_copy(texts(paths@), crate::http::optional_str(text)),
{
    if paths.len() == 0 {
        return false;
    }
    match text {
        Some(copied) => {
            let chars = chars_of(copied);
            let mut rest: &[char] = chars.as_slice();
            while rest.len() > 0
                invariant
                    paths@.len() > 0,
                    text == Some(copied),
                    only_names(texts(paths@), copied@) == only_names(texts(paths@), rest@),
                decreases rest@.len(),
            {
                let (line, next) = next_line(rest);
                let name = trim(line);
                let ghost here = lines(rest@);
                let ghost later = lines(next@);
                assert(here[0] == line@);
                if name.len() > 0 && !is_name_of_a_file(paths, name) && !is_name_of_a_file(
                    paths,
                    line,
                ) {
                    assert(!only_names(texts(paths@), rest@));
                    return false;
                }
                proof {
                    assert(here.len() == later.len() + 1);
                    assert(forall|k: int|
                        0 <= k < later.len() ==> #[trigger] later[k] == here[k + 1]);
                    assert(forall|k: int|
                        1 <= k < here.len() ==> #[trigger] here[k] == later[k - 1]);
                    assert(only_names(texts(paths@), rest@) == only_names(texts(paths@), next@));
                }
                rest = next;
            }
            assert(lines(rest@).len() == 0);
            true
        },
        None => true,
    }
}

/// The paths, one to a line.
pub fn join_paths(paths: &Vec<String>) -> (s: String)
    ensures
        s@ == one_to_a_line(texts(paths@)),
{
    let ghost all = texts(paths@);
    let mut s = String::new();
    let mut i: usize = 0;
    proof {
        assert(all.skip(0) =~= all);
        assert(s@ + one_to_a_line(all) =~= one_to_a_line(all));
    }
    while i < paths.len()
        invariant
            i <= paths@.len(),
            all == texts(paths@),
            s@ + one_to_a_line(all.skip(i as int)) == one_to_a_line(all),
        decreases paths@.len() - i,
    {
        let ghost before = s@;
        let ghost tail = all.skip(i as int);
        push_text(&mut s, paths[i].as_str());
        assert(tail[0] == paths@[i as int]@);
        assert(tail.drop_first() =~= all.skip(i + 1));
        if i + 1 < paths.len() {
            s.push('\n');
            assert(s@ + one_to_a_line(tail.drop_first()) =~= before + one_to_a_line(tail));
        } else {
            assert(all.skip(i + 1).len() == 0);
            assert(s@ + one_to_a_line(all.skip(i + 1)) =~= before + one_to_a_line(tail));
        }
        i = i + 1;
    }
    assert(s@ =~= one_to_a_line(all));
    s
}

/// What the pasteboard's text is to be rewritten to before it is pasted, if it is to be.
pub fn rewrite(paths: &Vec<String>, text: Option<&str>) -> (r: Option<String>)
    ensures
        crate::text::optional(r) == rewritten(
            texts(paths@),
            crate::http::optional_str(text),
        ),
{
    if is_file_copy(paths, text) {
        Some(join_paths(paths))
    } else {
        None
    }
}

/// A single file is pasted as its path.
pub proof fn law_single_file_pastes_its_path(path: Seq<char>, text: Option<Seq<char>>)
    requires
        file_copy(seq![path], text),
    ensures
        rewritten(seq![path], text) == Some(path),
{
}

/// Pasted paths come one to a line, in their order: the lines of the pasted text are the paths.
pub proof fn law_pasted_lines_are_the_paths(paths: Seq<Seq<char>>)
    requires
        paths.len() > 0,
        paths.last().len() > 0,
        forall|i: int| 0 <= i < paths.len() ==> !(#[trigger] paths[i]).contains('\n'),
        forall|i: int|
            0 <= i < paths.len() - 1 && (#[trigger] paths[i]).len() > 0 ==> paths[i].last() != '\r',
    ensures
        lines(one_to_a_line(paths)) == paths,
    decreases paths.len(),
{
    assert(!paths[0].contains('\n'));
    if paths.len() == 1 {
        crate::text::lemma_lines_last(paths[0]);
        assert(seq![paths[0]] =~= paths);
    } else {
        let rest = paths.drop_first();
        assert forall|i: int| 0 <= i < rest.len() implies !(#[trigger] rest[i]).contains('\n') by {
            assert(rest[i] == paths[i + 1]);
        }
        assert forall|i: int|
            0 <= i < rest.len() - 1 && (#[trigger] rest[i]).len() > 0 implies rest[i].last()
            != '\r' by {
            assert(rest[i] == paths[i + 1]);
        }
        law_pasted_lines_are_the_paths(rest);
        crate::text::lemma_lines_first(paths[0], one_to_a_line(rest));
        assert(seq![paths[0]] + rest =~= paths);
    }
}

/// The names of the files, as a file manager puts them on the pasteboard.
pub open spec fn names_of(paths: Seq<Seq<char>>) -> Seq<Seq<char>> {
    paths.map_values(|p: Seq<char>| base_name(p))
}

/// Whether a line that holds a name, and ends with a line feed, gives the name back: a carriage
/// return at its end would be taken for a part of the line's end.
pub open spec fn ends_a_line(name: Seq<char>) -> bool {
    trimmed(name).len() == 0 || name.last() != '\r'
}

proof fn lemma_lines_among_names(names: Seq<Seq<char>>, k: int)
    requires
        forall|i: int| 0 <= i < names.len() ==> !(#[trigger] names[i]).contains('\n'),
        forall|i: int| 0 <= i < names.len() - 1 ==> ends_a_line(#[trigger] names[i]),
        0 <= k < lines(one_to_a_line(names)).len(),
    ensures
        trimmed(lines(one_to_a_line(names))[k]).len() == 0 || names.contains(
            lines(one_to_a_line(names))[k],
        ),
    decreases names.len(),
{
    if names.len() == 0 {
    } else {
        let first = names[0];
        assert(!first.contains('\n'));
        if names.len() == 1 {
            if first.len() > 0 {
                crate::text::lemma_lines_last(first);
                assert(names[0] == first);
            }
        } else {
            let rest = names.drop_first();
            assert forall|i: int| 0 <= i < rest.len() implies !(#[trigger] rest[i]).contains(
                '\n',
            ) by {
                assert(rest[i] == names[i + 1]);
            }
            assert forall|i: int| 0 <= i < rest.len() - 1 implies ends_a_line(
                #[trigger] rest[i],
            ) by {
                assert(rest[i] == names[i + 1]);
            }
            assert(ends_a_line(names[0]));
            crate::text::lemma_lines_first(first, one_to_a_line(rest));
            if k == 0 {
                let l = crate::text::without_return(first);
                if trimmed(first).len() == 0 {
                    crate::text::lemma_blank(first);
                    assert forall|i: int| 0 <= i < l.len() implies crate::text::white_space(
                        #[trigger] l[i],
                    ) by {
                        assert(l[i] == first[i]);
                    }
                    crate::text::lemma_blank(l);
                } else {
                    assert(l == first);
                    assert(names[0] == first);
                }
            } else {
                lemma_lines_among_names(rest, k - 1);
                let l = lines(one_to_a_line(rest))[k - 1];
                if trimmed(l).len() > 0 {
                    let i = choose|i: int| 0 <= i < rest.len() && rest[i] == l;
                    assert(names[i + 1] == l);
                }
            }
        }
    }
}

/// A file manager's copy is recognised: files, with their names as text, one to a line, whatever
/// white space the names start or end with. So is one without text. A name that ends with a
/// carriage return can only come last.
pub proof fn law_file_managers_copy_is_recognised(paths: Seq<Seq<char>>)
    requires
        paths.len() > 0,
        forall|i: int| 0 <= i < paths.len() ==> !base_name(#[trigger] paths[i]).contains('\n'),
        forall|i: int| 0 <= i < paths.len() - 1 ==> ends_a_line(base_name(#[trigger] paths[i])),
    ensures
        rewritten(paths, Some(one_to_a_line(names_of(paths)))) == Some(one_to_a_line(paths)),
        rewritten(paths, None) == Some(one_to_a_line(paths)),
{
    let names = names_of(paths);
    let text = one_to_a_line(names);
    assert forall|i: int| 0 <= i < names.len() implies !(#[trigger] names[i]).contains('\n') by {
        assert(names[i] == base_name(paths[i]));
    }
    assert forall|i: int| 0 <= i < names.len() - 1 implies ends_a_line(#[trigger] names[i]) by {
        assert(names[i] == base_name(paths[i]));
    }
    assert forall|k: int| 0 <= k < lines(text).len() implies trimmed(
        #[trigger] lines(text)[k],
    ).len() == 0 || names_a_file(paths, trimmed(lines(text)[k])) || names_a_file(
        paths,
        lines(text)[k],
    ) by {
        lemma_lines_among_names(names, k);
        if trimmed(lines(text)[k]).len() > 0 {
            let i = choose|i: int| 0 <= i < names.len() && names[i] == lines(text)[k];
            assert(base_name(paths[i]) == names[i]);
        }
    }
}

/// Other text is pasted as it is: the pasteboard stays untouched where it holds no file, and
/// where it holds a line that is not the name of one.
pub proof fn law_other_text_is_untouched(paths: Seq<Seq<char>>, text: Seq<char>, k: int)
    requires
        paths.len() == 0 || {
            &&& 0 <= k < lines(text).len()
            &&& trimmed(lines(text)[k]).len() > 0
            &&& !names_a_file(paths, trimmed(lines(text)[k]))
            &&& !names_a_file(paths, lines(text)[k])
        },
    ensures
        rewritten(paths, Some(text)) is None,
{
}

/// One key pastes, and only with the command key: it is V, whose code is 9.
pub proof fn law_command_v_pastes(key_code: u16, command: bool)
    ensures
        pastes(key_code, command) <==> key_code == 9 && command,
{
}

/// A URL is resolved without the white space around it, and otherwise as it is.
pub proof fn law_url_is_resolved_without_white_space(
    front: Seq<char>,
    url: Seq<char>,
    back: Seq<char>,
)
    requires
        forall|i: int| 0 <= i < front.len() ==> crate::text::white_space(#[trigger] front[i]),
        forall|i: int| 0 <= i < back.len() ==> crate::text::white_space(#[trigger] back[i]),
        url.len() > 0 ==> !crate::text::white_space(url[0]) && !crate::text::white_space(
            url.last(),
        ),
    ensures
        url_to_resolve(front + url + back) == url,
{
    crate::text::law_trimming_takes_white_space_off(front, url, back);
}

/// Items that are put together give the paths of the first followed by those of the second. An
/// item that resolved gives just its path, and one that did not gives none.
pub proof fn law_items_give_their_paths_in_order(
    a: Seq<Option<String>>,
    b: Seq<Option<String>>,
    path: String,
)
    ensures
        present(a + b) == present(a) + present(b),
        present(seq![Some(path)]) == seq![path@],
        present(seq![None::<String>]) == Seq::<Seq<char>>::empty(),
        present(Seq::<Option<String>>::empty()) == Seq::<Seq<char>>::empty(),
    decreases b.len(),
{
    let one = seq![Some(path)];
    let none = seq![None::<String>];
    assert(present(one.drop_last()) =~= Seq::<Seq<char>>::empty());
    assert(present(one) =~= seq![path@]);
    assert(present(none.drop_last()) =~= Seq::<Seq<char>>::empty());
    if b.len() == 0 {
        assert(a + b =~= a);
        assert(present(a) + present(b) =~= present(a));
    } else {
        law_items_give_their_paths_in_order(a, b.drop_last(), path);
        assert((a + b).drop_last() =~= a + b.drop_last());
        assert((a + b).last() == b.last());
        assert(present(a + b) =~= present(a) + present(b));
    }
}

/// Where all items resolved, there are as many paths as items, each that of its item.
pub proof fn law_every_resolved_item_is_kept(items: Seq<Option<String>>)
    requires
        forall|i: int| 0 <= i < items.len() ==> (#[trigger] items[i]) is Some,
    ensures
        present(items).len() == items.len(),
        forall|i: int| 0 <= i < items.len() ==> #[trigger] present(items)[i] == items[i]->0@,
    decreases items.len(),
{
    if items.len() > 0 {
        let most = items.drop_last();
        assert forall|i: int| 0 <= i < most.len() implies (#[trigger] most[i]) is Some by {
            assert(most[i] == items[i]);
        }
        law_every_resolved_item_is_kept(most);
        assert(items[items.len() - 1] is Some);
        assert forall|i: int| 0 <= i < items.len() implies #[trigger] present(items)[i]
            == items[i]->0@ by {
            if i < most.len() {
                assert(present(items)[i] == present(most)[i]);
            }
        }
    }
}

/// The name of a file is what stands behind the last slash of its path; without a slash it is
/// the whole path.
pub proof fn law_name_stands_behind_the_last_slash(dir: Seq<char>, name: Seq<char>)
    requires
        !name.contains('/'),
    ensures
        base_name(name) == name,
        base_name(dir + seq!['/'] + name) == name,
    decreases name.len(),
{
    let path = dir + seq!['/'] + name;
    if name.len() == 0 {
        assert(path.last() == '/');
        assert(base_name(path) =~= name);
        assert(base_name(name) =~= name);
    } else {
        let most = name.drop_last();
        if most.contains('/') {
            let k = choose|k: int| 0 <= k < most.len() && most[k] == '/';
            assert(name[k] == '/');
        }
        assert(name.contains(name.last()));
        law_name_stands_behind_the_last_slash(dir, most);
        assert(path.drop_last() =~= dir + seq!['/'] + most);
        assert(path.last() == name.last());
        assert(most.push(name.last()) =~= name);
    }
}

/// A pasteboard is rewritten exactly if it holds a file, and every line of its text, if it has
/// one, is blank or equals the name of a file, with or without the white space around the line.
/// It is rewritten to the paths.
pub proof fn law_pasteboard_is_rewritten_for_files_only(
    paths: Seq<Seq<char>>,
    text: Option<Seq<char>>,
)
    ensures
        rewritten(paths, text) is Some <==> {
            &&& paths.len() > 0
            &&& text matches Some(t) ==> forall|k: int|
                0 <= k < lines(t).len() ==> {
                    ||| trimmed(#[trigger] lines(t)[k]) == Seq::<char>::empty()
                    ||| exists|i: int|
                        0 <= i < paths.len() && (base_name(#[trigger] paths[i]) == lines(t)[k]
                            || base_name(paths[i]) == trimmed(lines(t)[k]))
                }
        },
        rewritten(paths, text) matches Some(t) ==> t == one_to_a_line(paths),
{
    if let Some(t) = text {
        assert forall|k: int| 0 <= k < lines(t).len() implies ({
            ||| trimmed(#[trigger] lines(t)[k]).len() == 0
            ||| names_a_file(paths, trimmed(lines(t)[k]))
            ||| names_a_file(paths, lines(t)[k])
        } <==> {
            ||| trimmed(lines(t)[k]) == Seq::<char>::empty()
            ||| exists|i: int|
                0 <= i < paths.len() && (base_name(#[trigger] paths[i]) == lines(t)[k]
                    || base_name(paths[i]) == trimmed(lines(t)[k]))
        }) by {
            let l = lines(t)[k];
            if trimmed(l).len() == 0 {
                assert(trimmed(l) =~= Seq::<char>::empty());
            }
        }
    }
}

/// Paths are put one to a line: those of two lists put together stand in the lines of the first
/// followed by those of the second, and a single path stands alone.
pub proof fn law_paths_stand_one_to_a_line(a: Seq<Seq<char>>, b: Seq<Seq<char>>, path: Seq<char>)
    requires
        a.len() > 0,
        b.len() > 0,
    ensures
        one_to_a_line(a + b) == one_to_a_line(a) + seq!['\n'] + one_to_a_line(b),
        one_to_a_line(seq![path]) == path,
    decreases a.len(),
{
    let all = a + b;
    assert(all[0] == a[0]);
    if a.len() == 1 {
        assert(all.drop_first() =~= b);
    } else {
        law_paths_stand_one_to_a_line(a.drop_first(), b, path);
        assert(all.drop_first() =~= a.drop_first() + b);
        assert(one_to_a_line(all) =~= one_to_a_line(a) + seq!['\n'] + one_to_a_line(b));
    }
}

} // verus!
