//! Domain Label Deriver: turns a fully-qualified host name into a
//! presentable site label by picking the leftmost label that is not in a
//! reference set of generic subdomain / suffix tokens, then upper-casing
//! its first character.

use vstd::prelude::*;
use vstd::string::StrSliceExecFns;
use vstd::string::StringExecFns;
use crate::text::split;
use crate::text::split_spec;

verus! {

/// Named result of `char::to_uppercase`: the Unicode uppercase mapping of
/// one character, a function of the character alone.
pub uninterp spec fn upper_of(c: char) -> Seq<char>;

/// Relies on char::to_uppercase: yields the Unicode uppercase mapping of
/// the character, which std documents as one or more characters.
#[verifier::external_body]
fn upper_char(c: char) -> (r: String)
    ensures
        r@ == upper_of(c),
        r@.len() >= 1,
{
    let mut s = String::new();
    s.extend(c.to_uppercase());
    s
}

/// `s` with its first character replaced by its Unicode uppercase mapping
/// (which may be more than one character); empty stays empty.
pub open spec fn upper_first_spec(s: Seq<char>) -> Seq<char> {
    if s.len() == 0 {
        s
    } else {
        upper_of(s[0]) + s.skip(1)
    }
}

/// Upper-cases the first character of `s`, leaving the rest unchanged.
pub fn upper_first_letter(s: &str) -> (r: String)
    ensures
        r@ == upper_first_spec(s@),
{
    let len = s.unicode_len();
    if len == 0 {
        String::new()
    } else {
        let mut r = upper_char(s.get_char(0));
        r.append(s.substring_char(1, len));
        proof {
            assert(s@.subrange(1, len as int) =~= s@.skip(1));
        }
        r
    }
}

/// The first label that is not a member of `tokens`; empty when every
/// label is a member.
pub open spec fn first_free_label(labels: Seq<Seq<char>>, tokens: Seq<Seq<char>>) -> Seq<char>
    decreases labels.len(),
{
    if labels.len() == 0 {
        Seq::empty()
    } else if !tokens.contains(labels[0]) {
        labels[0]
    } else {
        first_free_label(labels.skip(1), tokens)
    }
}

/// The site label for a host: split the host on `.`, take the first label
/// outside the reference token set, and upper-case its first character.
pub open spec fn site_label_spec(host: Seq<char>, tokens: Seq<Seq<char>>) -> Seq<char> {
    upper_first_spec(first_free_label(split_spec(host, '.'), tokens))
}

fn contains_string(tokens: &Vec<String>, s: &String) -> (r: bool)
    ensures
        r == tokens.deep_view().contains(s@),
{
    let mut k: usize = 0;
    while k < tokens.len()
        invariant
            k <= tokens.len(),
            forall|j: int| 0 <= j < k ==> tokens.deep_view()[j] != s@,
        decreases tokens.len() - k,
    {
        if tokens[k] == *s {
            proof {
                assert(tokens.deep_view()[k as int] == s@);
            }
            return true;
        }
        k = k + 1;
    }
    proof {
        assert(forall|j: int| 0 <= j < tokens.deep_view().len() ==> tokens.deep_view()[j] != s@);
    }
    false
}

proof fn lemma_first_free_skip(labels: Seq<Seq<char>>, tokens: Seq<Seq<char>>, k: int)
    requires
        0 <= k <= labels.len(),
        forall|j: int| 0 <= j < k ==> tokens.contains(#[trigger] labels[j]),
    ensures
        first_free_label(labels, tokens) == first_free_label(labels.skip(k), tokens),
    decreases k,
{
    if k > 0 {
        assert(tokens.contains(labels[0]));
        assert forall|j: int| 0 <= j < k - 1 implies tokens.contains(#[trigger] labels.skip(1)[j]) by {
            assert(labels.skip(1)[j] == labels[j + 1]);
        }
        lemma_first_free_skip(labels.skip(1), tokens, k - 1);
        assert(labels.skip(1).skip(k - 1) =~= labels.skip(k));
    } else {
        assert(labels.skip(0) =~= labels);
    }
}

/// Derives the site label of `host` with respect to the reference token
/// set `tokens`, as `site_label_spec` describes.
pub fn site_label(host: &str, tokens: &Vec<String>) -> (r: String)
    ensures
        r@ == site_label_spec(host@, tokens.deep_view()),
{
    let labels = split(host, '.');
    let ghost lseq = labels.deep_view();
    let mut k: usize = 0;
    while k < labels.len()
        invariant
            k <= labels.len(),
            lseq == labels.deep_view(),
            lseq == split_spec(host@, '.'),
            forall|j: int| 0 <= j < k ==> tokens.deep_view().contains(#[trigger] lseq[j]),
        decreases labels.len() - k,
    {
        if !contains_string(tokens, &labels[k]) {
            proof {
                lemma_first_free_skip(lseq, tokens.deep_view(), k as int);
                assert(first_free_label(lseq.skip(k as int), tokens.deep_view()) == lseq[k as int]);
            }
            return upper_first_letter(labels[k].as_str());
        }
        k = k + 1;
    }
    proof {
        lemma_first_free_skip(lseq, tokens.deep_view(), lseq.len() as int);
        assert(lseq.skip(lseq.len() as int) =~= Seq::<Seq<char>>::empty());
    }
    String::new()
}

} // verus!
