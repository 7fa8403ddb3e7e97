//! Nickname normalization: the key under which members are looked up.
use super::errors::DomainError;
use crate::text::{self, contains_string, lowercase_string, nfc_string, trim};
use vstd::prelude::*;

verus! {

/// The most nicknames one subscription may name.
pub const MAX_NICKNAMES: usize = 256;

/// The lookup key of a nickname: the NFC of the trimmed nickname, lowercased;
/// none when that NFC is empty.
pub open spec fn nickname_key_of(value: Seq<char>) -> Option<Seq<char>> {
    let normalized = text::nfc_of(text::trim_seq(value));
    if normalized.len() == 0 {
        None
    } else {
        Some(text::lowercase_of(normalized))
    }
}

/// Normalizes a nickname into its lookup key; fails with `EmptyNickname`
/// exactly when the trimmed, NFC-normalized nickname is empty.
pub fn normalize_nickname(value: &str) -> (r: Result<String, DomainError>)
    ensures
        r matches Ok(key) ==> nickname_key_of(value@) == Some(key@),
        r matches Err(e) ==> nickname_key_of(value@) is None && e is EmptyNickname,
        nickname_key_of(value@) is None <==> r is Err,
        r is Err <==> text::trim_seq(value@).len() == 0,
        r matches Ok(key) ==> key@.len() > 0,
        text::all_ascii(value@) && r is Ok ==> (r matches Ok(key) && key@ == text::ascii_lower(
            text::trim_seq(value@),
        )),
{
    let trimmed = trim(value);
    proof {
        if text::all_ascii(value@) {
            text::lemma_trim_keeps_ascii(value@);
        }
    }
    let normalized = nfc_string(trimmed.as_str());
    if normalized.as_str().unicode_len() == 0 {
        return Err(DomainError::EmptyNickname);
    }
    Ok(lowercase_string(normalized.as_str()))
}

/// An ASCII key is its own key: the key of an ASCII nickname that is not
/// blank is ASCII, not blank, and trimming and lowercasing it gives it back,
/// so normalizing a key of an ASCII nickname gives the same key.
pub proof fn lemma_ascii_key_is_fixed(value: Seq<char>)
    requires
        text::all_ascii(value),
        text::trim_seq(value).len() > 0,
    ensures
        text::all_ascii(text::ascii_lower(text::trim_seq(value))),
        text::ascii_lower(text::trim_seq(value)).len() > 0,
        text::ascii_lower(text::trim_seq(text::ascii_lower(text::trim_seq(value)))) == text::ascii_lower(
            text::trim_seq(value),
        ),
{
    let t = text::trim_seq(value);
    let k = text::ascii_lower(t);
    text::lemma_trim_keeps_ascii(value);
    text::lemma_trim_ends(value);
    assert forall|i: int| 0 <= i < k.len() implies #[trigger] text::is_ascii_char(k[i]) by {
        assert(text::is_ascii_char(t[i]));
    }
    assert(k[0] == text::ascii_lower_char(t[0]));
    assert(k.last() == text::ascii_lower_char(t.last()));
    text::lemma_trim_fixed(k);
    assert(text::ascii_lower(k) =~= k);
}

/// Every nickname of `nicknames` has a key.
pub open spec fn all_keyed(nicknames: Seq<Seq<char>>) -> bool {
    forall|i: int| 0 <= i < nicknames.len() ==> (#[trigger] nickname_key_of(nicknames[i])) is Some
}

/// The keys of `nicknames` in order of first appearance, each once.
pub open spec fn distinct_keys(nicknames: Seq<Seq<char>>) -> Seq<Seq<char>>
    decreases nicknames.len(),
{
    if nicknames.len() == 0 {
        seq![]
    } else {
        let prev = distinct_keys(nicknames.drop_last());
        let key = nickname_key_of(nicknames.last())->0;
        if prev.contains(key) {
            prev
        } else {
            prev.push(key)
        }
    }
}

/// The distinct keys hold no key twice, hold the key of every nickname, and
/// hold nothing else.
pub proof fn lemma_distinct_keys(nicknames: Seq<Seq<char>>)
    requires
        all_keyed(nicknames),
    ensures
        distinct_keys(nicknames).no_duplicates(),
        forall|i: int|
            0 <= i < nicknames.len() ==> distinct_keys(nicknames).contains(
                #[trigger] nickname_key_of(nicknames[i])->0,
            ),
        forall|k: int|
            0 <= k < distinct_keys(nicknames).len() ==> exists|i: int|
                0 <= i < nicknames.len() && nickname_key_of(#[trigger] nicknames[i])->0
                    == #[trigger] distinct_keys(nicknames)[k],
        distinct_keys(nicknames).len() <= nicknames.len(),
    decreases nicknames.len(),
{
    if nicknames.len() > 0 {
        let init = nicknames.drop_last();
        assert(all_keyed(init)) by {
            assert forall|i: int| 0 <= i < init.len() implies (#[trigger] nickname_key_of(
                init[i],
            )) is Some by {
                assert(init[i] == nicknames[i]);
            }
        }
        lemma_distinct_keys(init);
        let prev = distinct_keys(init);
        let key = nickname_key_of(nicknames.last())->0;
        assert forall|i: int| 0 <= i < nicknames.len() implies distinct_keys(nicknames).contains(
            #[trigger] nickname_key_of(nicknames[i])->0,
        ) by {
            if i < nicknames.len() - 1 {
                assert(init[i] == nicknames[i]);
                let x = nickname_key_of(init[i])->0;
                assert(prev.contains(x));
                let j = choose|j: int| 0 <= j < prev.len() && prev[j] == x;
                assert(distinct_keys(nicknames)[j] == x);
            } else {
                if !prev.contains(key) {
                    assert(prev.push(key)[prev.len() as int] == key);
                }
            }
        }
        assert forall|k: int| 0 <= k < distinct_keys(nicknames).len() implies exists|i: int|
            0 <= i < nicknames.len() && nickname_key_of(#[trigger] nicknames[i])->0
                == #[trigger] distinct_keys(nicknames)[k] by {
            if k < prev.len() {
                let i = choose|i: int|
                    0 <= i < init.len() && nickname_key_of(#[trigger] init[i])->0 == prev[k];
                assert(nicknames[i] == init[i]);
            } else {
                assert(nicknames[nicknames.len() - 1] == nicknames.last());
            }
        }
    }
}

/// Normalizes the nicknames of a subscription into their distinct keys, in
/// order of first appearance. Fails with `TooManyNicknames` when more than
/// `MAX_NICKNAMES` are given, and otherwise with `EmptyNickname` when one of
/// them has no key.
pub fn normalize_nicknames(nicknames: Vec<String>) -> (r: Result<Vec<String>, DomainError>)
    ensures
        nicknames@.len() > MAX_NICKNAMES ==> (r matches Err(DomainError::TooManyNicknames { max })
            && max == MAX_NICKNAMES),
        nicknames@.len() <= MAX_NICKNAMES && !all_keyed(nicknames.deep_view()) ==> (r matches Err(
            e,
        ) && e is EmptyNickname),
        nicknames@.len() <= MAX_NICKNAMES && all_keyed(nicknames.deep_view()) ==> (r matches Ok(
            keys,
        ) && keys.deep_view() == distinct_keys(nicknames.deep_view())),
        nicknames@.len() <= MAX_NICKNAMES ==> (r is Err <==> exists|i: int|
            0 <= i < nicknames@.len() && #[trigger] text::trim_seq(nicknames@[i]@).len() == 0),
{
    if nicknames.len() > MAX_NICKNAMES {
        return Err(DomainError::TooManyNicknames { max: MAX_NICKNAMES });
    }
    let ghost all = nicknames.deep_view();
    let mut result: Vec<String> = Vec::new();
    let mut i: usize = 0;
    while i < nicknames.len()
        invariant
            i <= nicknames@.len(),
            nicknames@.len() <= MAX_NICKNAMES,
            all == nicknames.deep_view(),
            all_keyed(all.take(i as int)),
            forall|j: int| 0 <= j < i ==> text::trim_seq(#[trigger] nicknames@[j]@).len() > 0,
            result.deep_view() == distinct_keys(all.take(i as int)),
        decreases nicknames@.len() - i,
    {
        let key = match normalize_nickname(nicknames[i].as_str()) {
            Ok(key) => key,
            Err(e) => {
                proof {
                    assert(all[i as int] == nicknames@[i as int]@);
                    assert(!all_keyed(all));
                }
                return Err(e);
            },
        };
        let ghost prefix = all.take(i as int);
        let ghost next = all.take(i + 1);
        proof {
            assert(all[i as int] == nicknames@[i as int]@);
            assert(next.drop_last() =~= prefix);
            assert(next.last() == all[i as int]);
            assert forall|j: int| 0 <= j < next.len() implies (#[trigger] nickname_key_of(
                next[j],
            )) is Some by {
                if j < i {
                    assert(next[j] == prefix[j]);
                }
            }
        }
        if !contains_string(&result, &key) {
            result.push(key);
            proof {
                assert(result.deep_view() =~= distinct_keys(prefix).push(
                    nickname_key_of(next.last())->0,
                ));
            }
        }
        i = i + 1;
    }
    assert(all.take(i as int) =~= all);
    Ok(result)
}

} // verus!
