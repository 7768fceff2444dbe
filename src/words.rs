//! Membership of guesses in the list of accepted words.
use vstd::prelude::*;
use vstd::string::StringSliceAdditionalSpecFns;
use crate::evaluate::is_word;

verus! {

/// `b` with an ASCII lowercase letter turned to uppercase; other bytes are kept.
pub open spec fn ascii_upper(b: u8) -> u8 {
    if 97 <= b && b <= 122 {
        (b - 32) as u8
    } else {
        b
    }
}

/// `w` with every ASCII lowercase letter turned to uppercase.
pub open spec fn upper_word(w: Seq<u8>) -> Seq<u8> {
    w.map_values(|b: u8| ascii_upper(b))
}

/// Byte-wise lexicographic order on five-byte words: `a` comes strictly before `b`.
pub open spec fn word_lt(a: Seq<u8>, b: Seq<u8>) -> bool {
    a[0] < b[0] || (a[0] == b[0] && (a[1] < b[1] || (a[1] == b[1] && (a[2] < b[2] || (a[2]
        == b[2] && (a[3] < b[3] || (a[3] == b[3] && a[4] < b[4])))))))
}

/// Each word of `ws` comes no later than the words after it.
pub open spec fn is_sorted(ws: Seq<Seq<u8>>) -> bool {
    forall|i: int, j: int| 0 <= i < j < ws.len() ==> !word_lt(#[trigger] ws[j], #[trigger] ws[i])
}

/// Bytes of a word-list text: five uppercase letters per line, each line but perhaps the
/// last ended by a newline.
pub open spec fn is_list_text(b: Seq<u8>) -> bool {
    &&& (b.len() % 6 == 0 || b.len() % 6 == 5)
    &&& forall|k: int| 0 <= k < (b.len() + 1) / 6 ==> is_word(#[trigger] b.subrange(6 * k, 6 * k + 5))
    &&& forall|k: int| 0 <= k && 6 * k + 5 < b.len() ==> #[trigger] b[6 * k + 5] == 10
}

/// The words of a word-list text, in order.
pub open spec fn list_words(b: Seq<u8>) -> Seq<Seq<u8>> {
    Seq::new(((b.len() + 1) / 6) as nat, |k: int| b.subrange(6 * k, 6 * k + 5))
}

/// The list of words that a guess must belong to, sorted for binary search.
pub struct WordValidator {
    words: Vec<[u8; 5]>,
}

impl View for WordValidator {
    type V = Seq<Seq<u8>>;

    closed spec fn view(&self) -> Seq<Seq<u8>> {
        self.words@.map_values(|w: [u8; 5]| w@)
    }
}

fn word_less(a: &[u8; 5], b: &[u8; 5]) -> (r: bool)
    ensures
        r == word_lt(a@, b@),
{
    a[0] < b[0] || (a[0] == b[0] && (a[1] < b[1] || (a[1] == b[1] && (a[2] < b[2] || (a[2]
        == b[2] && (a[3] < b[3] || (a[3] == b[3] && a[4] < b[4])))))))
}

impl WordValidator {
    /// The list is sorted, which binary search relies on.
    pub open spec fn wf(&self) -> bool {
        is_sorted(self@)
    }

    /// `w`, taken to uppercase, is one of the listed words.
    pub open spec fn accepts(&self, w: Seq<u8>) -> bool {
        exists|i: int| 0 <= i < self@.len() && #[trigger] self@[i] == upper_word(w)
    }

    /// Makes a validator over `words`; `None` exactly when they are not in
    /// lexicographic order.
    pub fn new(words: Vec<[u8; 5]>) -> (r: Option<WordValidator>)
        ensures
            r is Some <==> is_sorted(words@.map_values(|w: [u8; 5]| w@)),
            r matches Some(v) ==> v.wf() && v@ == words@.map_values(|w: [u8; 5]| w@),
    {
        let ghost ws = words@.map_values(|w: [u8; 5]| w@);
        let mut k: usize = 1;
        while k < words.len()
            invariant
                1 <= k,
                ws == words@.map_values(|w: [u8; 5]| w@),
                forall|i: int, j: int|
                    0 <= i < j < ws.len() && j < k ==> !word_lt(#[trigger] ws[j], #[trigger] ws[i]),
            decreases words.len() - k,
        {
            if word_less(&words[k], &words[k - 1]) {
                assert(!is_sorted(ws)) by {
                    assert(ws[k as int] == words@[k as int]@);
                    assert(ws[k - 1] == words@[k - 1]@);
                }
                return None;
            }
            assert forall|i: int, j: int|
                0 <= i < j < ws.len() && j < k + 1 implies !word_lt(
                #[trigger] ws[j],
                #[trigger] ws[i],
            ) by {
                if j == k && i < k - 1 {
                    assert(!word_lt(ws[k - 1], ws[i]));
                }
            }
            k = k + 1;
        }
        Some(WordValidator { words })
    }

    /// Reads a validator from the text of a word list; `None` when the text is not lines of
    /// five uppercase letters, or when its words are not in lexicographic order.
    pub fn from_text(text: &str) -> (r: Option<WordValidator>)
        ensures
            r is Some <==> is_list_text(text.spec_bytes()) && is_sorted(
                list_words(text.spec_bytes()),
            ),
            r matches Some(v) ==> v.wf() && v@ == list_words(text.spec_bytes()),
    {
        let bytes = text.as_bytes();
        let ghost b = bytes@;
        let len = bytes.len();
        if len % 6 != 0 && len % 6 != 5 {
            return None;
        }
        let mut words: Vec<[u8; 5]> = Vec::new();
        let mut pos: usize = 0;
        while pos < len
            invariant
                b == bytes@,
                b == text.spec_bytes(),
                len == b.len(),
                len % 6 == 0 || len % 6 == 5,
                pos % 6 == 0,
                pos <= len + 1,
                words@.len() == pos / 6,
                forall|k: int| 0 <= k < words@.len() ==> #[trigger] words@[k]@ == b.subrange(6 * k, 6 * k + 5),
                forall|k: int| 0 <= k < words@.len() ==> is_word(#[trigger] b.subrange(6 * k, 6 * k + 5)),
                forall|k: int| 0 <= k && 6 * k + 5 < pos && 6 * k + 5 < len ==> #[trigger] b[6 * k + 5] == 10,
            decreases len + 1 - pos,
        {
            let w: [u8; 5] = [bytes[pos], bytes[pos + 1], bytes[pos + 2], bytes[pos + 3], bytes[pos + 4]];
            let ghost k = pos / 6;
            assert(6 * k == pos);
            assert(w@ =~= b.subrange(6 * k, 6 * k + 5));
            let mut j: usize = 0;
            while j < 5
                invariant
                    0 <= j <= 5,
                    b == bytes@,
                    b == text.spec_bytes(),
                    6 * k == pos,
                    0 <= k < (b.len() + 1) / 6,
                    w@ == b.subrange(6 * k, 6 * k + 5),
                    forall|m: int| 0 <= m < j ==> crate::evaluate::is_upper_letter(#[trigger] w@[m]),
                decreases 5 - j,
            {
                if w[j] < 65 || w[j] > 90 {
                    assert(!is_list_text(b)) by {
                        assert(w@[j as int] == b.subrange(6 * k, 6 * k + 5)[j as int]);
                    }
                    return None;
                }
                j = j + 1;
            }
            if pos + 5 < len && bytes[pos + 5] != 10 {
                assert(!is_list_text(b));
                return None;
            }
            assert forall|m: int| 0 <= m && 6 * m + 5 < pos + 6 && 6 * m + 5 < len implies #[trigger] b[6 * m + 5] == 10 by {
                if 6 * m + 5 >= pos {
                    assert(m == k);
                }
            }
            words.push(w);
            pos = pos + 6;
        }
        assert(words@.map_values(|w: [u8; 5]| w@) =~= list_words(b));
        WordValidator::new(words)
    }

    /// Whether `word`, taken to uppercase, is one of the listed words; a binary search.
    pub fn is_valid(&self, word: &[u8]) -> (r: bool)
        requires
            self.wf(),
            word@.len() == 5,
        ensures
            r == self.accepts(word@),
    {
        let target: [u8; 5] = [
            upper_byte(word[0]),
            upper_byte(word[1]),
            upper_byte(word[2]),
            upper_byte(word[3]),
            upper_byte(word[4]),
        ];
        let ghost t = upper_word(word@);
        assert(target@ =~= t);
        let ghost ws = self@;
        let mut lo: usize = 0;
        let mut hi: usize = self.words.len();
        while lo < hi
            invariant
                0 <= lo <= hi <= ws.len(),
                ws == self@,
                ws.len() == self.words@.len(),
                is_sorted(ws),
                target@ == t,
                t == upper_word(word@),
                forall|k: int| 0 <= k < lo ==> word_lt(#[trigger] ws[k], t),
                forall|k: int| hi <= k < ws.len() ==> word_lt(t, #[trigger] ws[k]),
            decreases hi - lo,
        {
            let mid: usize = lo + (hi - lo) / 2;
            let w = &self.words[mid];
            assert(ws[mid as int] == w@);
            if word_less(w, &target) {
                assert forall|k: int| 0 <= k < mid + 1 implies word_lt(#[trigger] ws[k], t) by {
                    if k < mid {
                        assert(!word_lt(ws[mid as int], ws[k]));
                    }
                }
                lo = mid + 1;
            } else if word_less(&target, w) {
                assert forall|k: int| mid <= k < ws.len() implies word_lt(t, #[trigger] ws[k]) by {
                    if k > mid {
                        assert(!word_lt(ws[k], ws[mid as int]));
                    }
                }
                hi = mid;
            } else {
                assert(ws[mid as int] =~= t);
                assert(self@[mid as int] == upper_word(word@));
                return true;
            }
        }
        assert forall|k: int| 0 <= k < ws.len() implies #[trigger] ws[k] != t by {
            if k < lo {
                assert(word_lt(ws[k], t));
            } else {
                assert(word_lt(t, ws[k]));
            }
        }
        false
    }
}

/// Every listed word of uppercase letters is accepted.
pub proof fn lemma_listed_word_accepted(v: WordValidator, i: int)
    requires
        v.wf(),
        0 <= i < v@.len(),
        is_word(v@[i]),
    ensures
        v.accepts(v@[i]),
{
    assert(upper_word(v@[i]) =~= v@[i]);
}

/// Acceptance does not depend on case: a word is accepted exactly when its uppercase
/// form is.
pub proof fn lemma_accepts_ignores_case(v: WordValidator, w: Seq<u8>)
    ensures
        v.accepts(w) == v.accepts(upper_word(w)),
{
    assert(upper_word(upper_word(w)) =~= upper_word(w));
}

/// A word whose uppercase form is not listed is refused.
pub proof fn lemma_unlisted_word_rejected(v: WordValidator, w: Seq<u8>)
    requires
        forall|i: int| 0 <= i < v@.len() ==> #[trigger] v@[i] != upper_word(w),
    ensures
        !v.accepts(w),
{
}

fn upper_byte(b: u8) -> (r: u8)
    ensures
        r == ascii_upper(b),
{
    if 97 <= b && b <= 122 {
        b - 32
    } else {
        b
    }
}

} // verus!
