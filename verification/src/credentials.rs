//! The stored login of the command-line client, and the user name that a
//! `login` line names.

use vstd::prelude::*;
use crate::text::{
    has_prefix, is_space, lemma_single_word, lemma_words_after_space, skip_chars, split_whitespace,
    starts_with, str_equal, views, words,
};
use crate::user::UserId;

verus! {

/// The login the client sends with each request.
#[derive(Debug)]
pub struct Credentials {
    pub user: UserId,
    pub password: String,
}

/// The user that a `login` line names, read from its words after the first:
/// the first word that does not start with `--`; or the rest of a word
/// `--user=NAME`; or the word after `--user`. Other `--` words are passed
/// over. `None` when no word names a user.
pub open spec fn user_from_words(toks: Seq<Seq<char>>, i: int) -> Option<Seq<char>>
    decreases toks.len() - i,
{
    if i < 0 || i >= toks.len() {
        None
    } else {
        let t = toks[i];
        if !has_prefix(t, "--"@) {
            Some(t)
        } else if has_prefix(t, "--user="@) {
            Some(t.skip("--user="@.len() as int))
        } else if t == "--user"@ {
            if i + 1 < toks.len() {
                Some(toks[i + 1])
            } else {
                None
            }
        } else {
            user_from_words(toks, i + 1)
        }
    }
}

/// The user named by a `login` line: its first word is the command and is
/// passed over.
pub open spec fn login_user(input: Seq<char>) -> Option<Seq<char>> {
    user_from_words(words(input), 1)
}

/// The user that a `login` line names (see `login_user`).
pub fn extract_user(input: &str) -> (res: Option<String>)
    ensures
        match res {
            Some(u) => login_user(input@) == Some(u@),
            None => login_user(input@) is None,
        },
{
    let parts = split_whitespace(input);
    let ghost toks = words(input@);
    assert(views(parts@) == toks);
    assert(parts@.len() == toks.len());
    let mut i: usize = 1;
    while i < parts.len()
        invariant
            toks == words(input@),
            views(parts@) == toks,
            parts@.len() == toks.len(),
            1 <= i,
            user_from_words(toks, 1) == user_from_words(toks, i as int),
        decreases parts.len() - i,
    {
        let part = parts[i].as_str();
        assert(part@ == toks[i as int]);
        if !starts_with(part, "--") {
            assert(user_from_words(toks, i as int) == Some(toks[i as int]));
            let r = part.to_owned();
            assert(r@ == toks[i as int]);
            return Some(r);
        }
        if starts_with(part, "--user=") {
            let k = "--user=".unicode_len();
            return Some(skip_chars(part, k));
        }
        if str_equal(part, "--user") {
            if i + 1 < parts.len() {
                assert(parts@[i + 1]@ == toks[i + 1]);
                return Some(parts[i + 1].clone());
            }
            return None;
        }
        i = i + 1;
    }
    None
}

/// `login NAME` names the user `NAME`, for any `NAME` without white space
/// that does not start with `--`.
pub proof fn law_login_names_the_user(name: Seq<char>)
    requires
        name.len() > 0,
        forall|i: int| 0 <= i < name.len() ==> !is_space(#[trigger] name[i]),
        !has_prefix(name, "--"@),
    ensures
        login_user("login"@ + seq![' '] + name) == Some(name),
{
    reveal_strlit("login");
    let l = "login"@;
    assert(l =~= seq!['l', 'o', 'g', 'i', 'n']);
    assert forall|i: int| 0 <= i < l.len() implies !is_space(#[trigger] l[i]) by {}
    lemma_single_word(l);
    lemma_words_after_space(l, name);
    assert(words(l + seq![' '] + name) =~= seq![l, name]);
}

} // verus!
