//! Message similarity: the Jaccard similarity of the word sets of two messages. Two errors
//! at the same location whose messages are similar enough are the same error.

use crate::text::{chars_eq, chars_of, lowercase, to_lowercase};
use vstd::prelude::*;
use vstd::seq_lib::seq_to_set_is_finite;
use vstd::set_lib::lemma_set_intersect_union_lens;

verus! {

/// Whether a character is alphanumeric: what `char::is_alphanumeric` returns for it.
pub uninterp spec fn is_alphanumeric(c: char) -> bool;

/// Whether `c` is a letter or a digit in the sense of Unicode.
///
/// Trusted: calls `char::is_alphanumeric` of the standard library, whose result depends on
/// the character alone. The contract gives that result the name [`is_alphanumeric`].
#[verifier::external_body]
pub(crate) fn char_is_alphanumeric(c: char) -> (b: bool)
    ensures
        b == is_alphanumeric(c),
{
    c.is_alphanumeric()
}

/// How similar two messages are: `shared` of the `total` different words of the two occur
/// in both. `total` is never 0; two messages without any word share 1 of 1.
#[derive(Debug, Clone, Copy, PartialEq, Eq, Structural)]
pub struct Similarity {
    pub shared: u128,
    pub total: u128,
}

/// The run of alphanumeric characters at the end of `t`: the word that nothing has ended
/// yet.
pub open spec fn open_word(t: Seq<char>) -> Seq<char>
    decreases t.len(),
{
    if t.len() == 0 {
        Seq::empty()
    } else if is_alphanumeric(t.last()) {
        open_word(t.drop_last()).push(t.last())
    } else {
        Seq::empty()
    }
}

/// The words of `t` that a character which is not alphanumeric ends.
pub open spec fn ended_words(t: Seq<char>) -> Seq<Seq<char>>
    decreases t.len(),
{
    if t.len() == 0 {
        Seq::empty()
    } else if !is_alphanumeric(t.last()) && open_word(t.drop_last()).len() > 0 {
        ended_words(t.drop_last()).push(open_word(t.drop_last()))
    } else {
        ended_words(t.drop_last())
    }
}

/// The words of a text in order: its runs of alphanumeric characters, as long as they go.
pub open spec fn words(t: Seq<char>) -> Seq<Seq<char>> {
    if open_word(t).len() > 0 {
        ended_words(t).push(open_word(t))
    } else {
        ended_words(t)
    }
}

/// The set of the words of a message, in lower case.
pub open spec fn word_set(message: Seq<char>) -> Set<Seq<char>> {
    words(lowercase(message)).to_set()
}

/// The Jaccard similarity of two finite sets as a fraction: the size of the intersection
/// over the size of the union, and 1 over 1 where both sets are empty.
pub open spec fn jaccard(a: Set<Seq<char>>, b: Set<Seq<char>>) -> (nat, nat) {
    if a.len() == 0 && b.len() == 0 {
        (1, 1)
    } else {
        (a.intersect(b).len(), a.union(b).len())
    }
}

/// The similarity of two messages.
pub open spec fn message_similarity(a: Seq<char>, b: Seq<char>) -> (nat, nat) {
    jaccard(word_set(a), word_set(b))
}

/// Whether a similarity reaches the threshold of one half, from which on two messages
/// count as the same.
pub open spec fn reaches_threshold(shared: nat, total: nat) -> bool {
    2 * shared >= total
}

/// The plain values of a list of words.
pub open spec fn word_views(list: Seq<Vec<char>>) -> Seq<Seq<char>> {
    list.map_values(|w: Vec<char>| w@)
}

/// The words of a text, in order.
pub fn split_words(text: &str) -> (list: Vec<Vec<char>>)
    ensures
        word_views(list@) == words(text@),
{
    let chars = chars_of(text);
    let mut done: Vec<Vec<char>> = Vec::new();
    let mut current: Vec<char> = Vec::new();
    let mut i: usize = 0;
    while i < chars.len()
        invariant
            i <= chars.len(),
            word_views(done@) == ended_words(chars@.take(i as int)),
            current@ == open_word(chars@.take(i as int)),
        decreases chars.len() - i,
    {
        let c = chars[i];
        proof {
            assert(chars@.take(i + 1).drop_last() =~= chars@.take(i as int));
        }
        if char_is_alphanumeric(c) {
            current.push(c);
        } else {
            if current.len() > 0 {
                done.push(current);
            }
            current = Vec::new();
        }
        i += 1;
    }
    proof {
        assert(chars@.take(chars.len() as int) =~= chars@);
    }
    if current.len() > 0 {
        done.push(current);
    }
    done
}

/// Whether `word` is among the first `n` words of `list`.
fn holds_word(list: &Vec<Vec<char>>, n: usize, word: &Vec<char>) -> (b: bool)
    requires
        n <= list.len(),
    ensures
        b == word_views(list@).take(n as int).contains(word@),
{
    let mut i: usize = 0;
    while i < n
        invariant
            i <= n,
            n <= list.len(),
            forall|k: int| 0 <= k < i ==> word_views(list@)[k] != word@,
        decreases n - i,
    {
        if chars_eq(&list[i], word) {
            assert(word_views(list@).take(n as int)[i as int] == word@);
            return true;
        }
        i += 1;
    }
    false
}

/// The set of a sequence with one more element is the set of the sequence with that
/// element.
proof fn lemma_to_set_push(s: Seq<Seq<char>>, x: Seq<char>)
    ensures
        s.push(x).to_set() =~= s.to_set().insert(x),
        s.to_set().finite(),
{
    assert forall|y: Seq<char>| s.push(x).to_set().contains(y) <==> s.to_set().insert(x).contains(
        y,
    ) by {
        if s.contains(y) {
            let k = choose|k: int| 0 <= k < s.len() && s[k] == y;
            assert(s.push(x)[k] == y);
        }
        if y == x {
            assert(s.push(x)[s.len() as int] == x);
        }
    }
}

/// The number of different words of a list.
fn count_distinct(list: &Vec<Vec<char>>) -> (n: u128)
    ensures
        n == word_views(list@).to_set().len(),
        n <= list.len(),
{
    let mut n: u128 = 0;
    let mut i: usize = 0;
    proof {
        assert(word_views(list@).take(0).to_set() =~= Set::<Seq<char>>::empty());
    }
    while i < list.len()
        invariant
            i <= list.len(),
            n == word_views(list@).take(i as int).to_set().len(),
            n <= i,
        decreases list.len() - i,
    {
        proof {
            let prefix = word_views(list@).take(i as int);
            assert(word_views(list@).take(i + 1) =~= prefix.push(list@[i as int]@));
            lemma_to_set_push(prefix, list@[i as int]@);
        }
        if !holds_word(list, i, &list[i]) {
            n += 1;
        }
        i += 1;
    }
    proof {
        assert(word_views(list@).take(list.len() as int) =~= word_views(list@));
    }
    n
}

/// The number of different words of `a` that are words of `b` too.
fn count_shared(a: &Vec<Vec<char>>, b: &Vec<Vec<char>>) -> (n: u128)
    ensures
        n == word_views(a@).to_set().intersect(word_views(b@).to_set()).len(),
{
    let ghost others = word_views(b@).to_set();
    let mut n: u128 = 0;
    let mut i: usize = 0;
    proof {
        assert(word_views(a@).take(0).to_set().intersect(others) =~= Set::<Seq<char>>::empty());
    }
    while i < a.len()
        invariant
            i <= a.len(),
            others == word_views(b@).to_set(),
            n == word_views(a@).take(i as int).to_set().intersect(others).len(),
            n <= i,
        decreases a.len() - i,
    {
        let seen = holds_word(a, i, &a[i]);
        let shared = holds_word(b, b.len(), &a[i]);
        proof {
            let prefix = word_views(a@).take(i as int);
            let word = a@[i as int]@;
            assert(word_views(a@).take(i + 1) =~= prefix.push(word));
            lemma_to_set_push(prefix, word);
            assert(word_views(b@).take(b.len() as int) =~= word_views(b@));
            if !seen && shared {
                assert(prefix.to_set().insert(word).intersect(others) =~= prefix.to_set().intersect(
                    others,
                ).insert(word));
            } else {
                assert(prefix.to_set().insert(word).intersect(others) =~= prefix.to_set().intersect(
                    others,
                ));
            }
        }
        if !seen && shared {
            n += 1;
        }
        i += 1;
    }
    proof {
        assert(word_views(a@).take(a.len() as int) =~= word_views(a@));
    }
    n
}

/// The similarity of two lists of words: of the different words of the two lists, the
/// share that occurs in both.
pub fn word_similarity(a: &Vec<Vec<char>>, b: &Vec<Vec<char>>) -> (s: Similarity)
    ensures
        (s.shared as nat, s.total as nat) == jaccard(
            word_views(a@).to_set(),
            word_views(b@).to_set(),
        ),
        s.total > 0,
        s.shared <= s.total,
{
    let in_a = count_distinct(a);
    let in_b = count_distinct(b);
    if in_a == 0 && in_b == 0 {
        return Similarity { shared: 1, total: 1 };
    }
    let shared = count_shared(a, b);
    proof {
        let x = word_views(a@).to_set();
        let y = word_views(b@).to_set();
        lemma_set_intersect_union_lens(x, y);
        vstd::set_lib::lemma_len_intersect(x, y);
        assert(x.intersect(y) =~= y.intersect(x));
        vstd::set_lib::lemma_len_intersect(y, x);
    }
    Similarity { shared, total: in_a + in_b - shared }
}

/// The similarity of two messages: the Jaccard similarity of their sets of words, where
/// the words of a message are the runs of alphanumeric characters of its lower-case form.
pub fn text_similarity(a: &str, b: &str) -> (s: Similarity)
    ensures
        (s.shared as nat, s.total as nat) == message_similarity(a@, b@),
        s.total > 0,
        s.shared <= s.total,
{
    let lower_a = to_lowercase(a);
    let lower_b = to_lowercase(b);
    let words_a = split_words(lower_a.as_str());
    let words_b = split_words(lower_b.as_str());
    word_similarity(&words_a, &words_b)
}

impl Similarity {
    /// Whether the similarity reaches the threshold of one half.
    pub fn is_match(&self) -> (b: bool)
        ensures
            b == reaches_threshold(self.shared as nat, self.total as nat),
    {
        self.shared >= self.total / 2 + self.total % 2
    }
}

/// Whether two messages are similar enough to be the same error.
pub fn messages_match(a: &str, b: &str) -> (r: bool)
    ensures
        r == reaches_threshold(message_similarity(a@, b@).0, message_similarity(a@, b@).1),
{
    text_similarity(a, b).is_match()
}

/// Similarity does not depend on the order of the two messages.
pub proof fn lemma_similarity_symmetric(a: Seq<char>, b: Seq<char>)
    ensures
        message_similarity(a, b) == message_similarity(b, a),
{
    let x = word_set(a);
    let y = word_set(b);
    assert(x.intersect(y) =~= y.intersect(x));
    assert(x.union(y) =~= y.union(x));
}

/// A message is as similar to itself as can be: every word of the two is shared.
pub proof fn lemma_similarity_reflexive(a: Seq<char>)
    ensures
        message_similarity(a, a).0 == message_similarity(a, a).1,
        message_similarity(a, a).1 > 0,
{
    let x = word_set(a);
    assert(x.intersect(x) =~= x);
    assert(x.union(x) =~= x);
}

} // verus!
