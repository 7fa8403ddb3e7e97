//! What clients see of the stored roster.
use crate::domain::models::{self, MemberRecord, MemberRecordView};
use crate::protocol::{self, PublicMember, PublicMemberStatus, PublicMemberView};
use crate::text::{self, chars_le, chars_of, copy_strings, lowercase_string};
use vstd::prelude::*;

verus! {

broadcast use vstd::seq_lib::group_to_multiset_ensures;

/// Whether a record is filed under `key`.
pub open spec fn has_key(key: Seq<char>) -> spec_fn(MemberRecordView) -> bool {
    |r: MemberRecordView| r.nickname_key == key
}

/// The records filed under `key`, in stored order.
pub open spec fn group_of(records: Seq<MemberRecordView>, key: Seq<char>) -> Seq<MemberRecordView> {
    records.filter(has_key(key))
}

/// What a client learns of a nickname whose records are `group` (not empty):
/// more than one record makes it ambiguous, and an ambiguous nickname never
/// carries badges; a single record without badges counts as not found.
pub open spec fn group_member(group: Seq<MemberRecordView>) -> PublicMemberView {
    let first = group[0];
    if group.len() > 1 {
        PublicMemberView {
            nickname: first.nickname_raw,
            status: PublicMemberStatus::Ambiguous,
            badges: seq![],
        }
    } else if first.badges.len() == 0 {
        PublicMemberView {
            nickname: first.nickname_raw,
            status: PublicMemberStatus::NotFound,
            badges: seq![],
        }
    } else {
        PublicMemberView {
            nickname: first.nickname_raw,
            status: PublicMemberStatus::Found,
            badges: first.badges,
        }
    }
}

/// The answer for a requested key that names no record.
pub open spec fn not_found(key: Seq<char>) -> PublicMemberView {
    PublicMemberView { nickname: key, status: PublicMemberStatus::NotFound, badges: seq![] }
}

/// The answer for the `i`-th requested key: a key asked for earlier in the
/// same request, or one that names no record, is not found.
pub open spec fn requested_member(
    keys: Seq<Seq<char>>,
    records: Seq<MemberRecordView>,
    i: int,
) -> PublicMemberView {
    if keys.take(i).contains(keys[i]) || group_of(records, keys[i]).len() == 0 {
        not_found(keys[i])
    } else {
        group_member(group_of(records, keys[i]))
    }
}

/// Whether the key of `records[i]` appears among the records before it.
pub open spec fn key_seen_before(records: Seq<MemberRecordView>, i: int) -> bool {
    exists|j: int| 0 <= j < i && #[trigger] records[j].nickname_key == records[i].nickname_key
}

/// The members of the full roster among the first `n` records: one per
/// nickname key, at the key's first record, kept only when their status is `Found`.
pub open spec fn listed_members(records: Seq<MemberRecordView>, n: nat) -> Seq<PublicMemberView>
    decreases n,
{
    if n == 0 {
        seq![]
    } else {
        let prev = listed_members(records, (n - 1) as nat);
        let i = n - 1;
        if key_seen_before(records, i) {
            prev
        } else {
            let m = group_member(group_of(records, records[i].nickname_key));
            if m.status == PublicMemberStatus::Found {
                prev.push(m)
            } else {
                prev
            }
        }
    }
}

/// The members are ordered by their lowercased nicknames.
pub open spec fn sorted_by_name(members: Seq<PublicMemberView>) -> bool {
    forall|a: int, b: int|
        0 <= a < b < members.len() ==> text::lex_le(
            text::lowercase_of(#[trigger] members[a].nickname),
            text::lowercase_of(#[trigger] members[b].nickname),
        )
}

/// `members` is what clients see of `records` for the requested `keys` (see
/// `public_members`).
pub open spec fn presents(
    keys: Seq<Seq<char>>,
    records: Seq<MemberRecordView>,
    members: Seq<PublicMemberView>,
) -> bool {
    &&& keys.len() > 0 ==> members.len() == keys.len() && forall|i: int|
        0 <= i < keys.len() ==> #[trigger] members[i] == requested_member(keys, records, i)
    &&& keys.len() == 0 ==> members.to_multiset() == listed_members(records, records.len())
        .to_multiset() && sorted_by_name(members)
}

/// The public view of the records of one nickname (`records` is not empty).
pub fn public_member_group(records: &[MemberRecord]) -> (m: PublicMember)
    requires
        records@.len() > 0,
    ensures
        m@ == group_member(models::records_view(records@)),
{
    let first = &records[0];
    let ghost rv = models::records_view(records@);
    assert(rv[0] == first@);
    if records.len() > 1 {
        let badges: Vec<String> = Vec::new();
        assert(badges.deep_view() =~= Seq::<Seq<char>>::empty());
        return PublicMember {
            nickname: first.nickname_raw.clone(),
            status: PublicMemberStatus::Ambiguous,
            badges,
        };
    }
    if first.badges.len() == 0 {
        let badges: Vec<String> = Vec::new();
        assert(badges.deep_view() =~= Seq::<Seq<char>>::empty());
        return PublicMember {
            nickname: first.nickname_raw.clone(),
            status: PublicMemberStatus::NotFound,
            badges,
        };
    }
    let badges = copy_strings(&first.badges);
    PublicMember { nickname: first.nickname_raw.clone(), status: PublicMemberStatus::Found, badges }
}

/// The records filed under `key`, in stored order.
fn records_with_key(records: &Vec<MemberRecord>, key: &String) -> (g: Vec<MemberRecord>)
    ensures
        models::records_view(g@) == group_of(models::records_view(records@), key@),
{
    let ghost rv = models::records_view(records@);
    let mut g: Vec<MemberRecord> = Vec::new();
    let mut j: usize = 0;
    proof {
        assert(rv.take(0) =~= Seq::<MemberRecordView>::empty());
        reveal(Seq::filter);
    }
    while j < records.len()
        invariant
            j <= records@.len(),
            rv == models::records_view(records@),
            models::records_view(g@) == rv.take(j as int).filter(has_key(key@)),
        decreases records@.len() - j,
    {
        proof {
            assert(rv.take(j + 1) =~= rv.take(j as int).push(rv[j as int]));
            rv.take(j as int).lemma_filter_push(rv[j as int], has_key(key@));
        }
        if records[j].nickname_key == *key {
            let r = records[j].duplicate();
            g.push(r);
            assert(models::records_view(g@) =~= rv.take(j as int).filter(has_key(key@)).push(
                rv[j as int],
            ));
        }
        j = j + 1;
    }
    assert(rv.take(j as int) =~= rv);
    g
}

/// Whether `key` appears among the first `n` keys.
fn asked_before(keys: &[String], n: usize, key: &String) -> (r: bool)
    requires
        n <= keys@.len(),
    ensures
        r == keys.deep_view().take(n as int).contains(key@),
{
    let ghost kv = keys.deep_view();
    let mut j: usize = 0;
    while j < n
        invariant
            j <= n <= keys@.len(),
            kv == keys.deep_view(),
            forall|k: int| 0 <= k < j ==> kv[k] != key@,
        decreases n - j,
    {
        if keys[j] == *key {
            assert(kv.take(n as int)[j as int] == key@);
            return true;
        }
        j = j + 1;
    }
    proof {
        if kv.take(n as int).contains(key@) {
            let k = choose|k: int| 0 <= k < n && kv.take(n as int)[k] == key@;
            assert(kv[k] == key@);
        }
    }
    false
}

/// Whether the key of `records[i]` appears among the records before it.
fn seen_before(records: &Vec<MemberRecord>, i: usize) -> (r: bool)
    requires
        i < records@.len(),
    ensures
        r == key_seen_before(models::records_view(records@), i as int),
{
    let ghost rv = models::records_view(records@);
    let mut j: usize = 0;
    while j < i
        invariant
            j <= i < records@.len(),
            rv == models::records_view(records@),
            forall|k: int| 0 <= k < j ==> rv[k].nickname_key != rv[i as int].nickname_key,
        decreases i - j,
    {
        if records[j].nickname_key == records[i].nickname_key {
            assert(rv[j as int].nickname_key == rv[i as int].nickname_key);
            return true;
        }
        j = j + 1;
    }
    false
}

/// What clients see of the stored roster. With requested `keys`, one entry per
/// key, in request order (see `requested_member`). Without keys, the full
/// roster: one entry per nickname key whose status is `Found`, ordered by
/// lowercased nickname.
pub fn public_members(keys: &[String], records: Vec<MemberRecord>) -> (members: Vec<PublicMember>)
    ensures
        presents(keys.deep_view(), models::records_view(records@), protocol::members_view(members@)),
{
    let ghost rv = models::records_view(records@);
    if keys.len() > 0 {
        let ghost kv = keys.deep_view();
        let mut members: Vec<PublicMember> = Vec::new();
        let mut i: usize = 0;
        while i < keys.len()
            invariant
                i <= keys@.len(),
                kv == keys.deep_view(),
                rv == models::records_view(records@),
                members@.len() == i,
                forall|k: int|
                    0 <= k < i ==> (#[trigger] members@[k])@ == requested_member(kv, rv, k),
            decreases keys@.len() - i,
        {
            let key = &keys[i];
            assert(kv[i as int] == key@);
            let repeated = asked_before(keys, i, key);
            let group = records_with_key(&records, key);
            let member = if repeated || group.len() == 0 {
                PublicMember {
                    nickname: key.clone(),
                    status: PublicMemberStatus::NotFound,
                    badges: Vec::new(),
                }
            } else {
                public_member_group(group.as_slice())
            };
            proof {
                assert(member@.badges =~= requested_member(kv, rv, i as int).badges);
            }
            members.push(member);
            i = i + 1;
        }
        proof {
            let mv = protocol::members_view(members@);
            assert forall|k: int| 0 <= k < kv.len() implies #[trigger] mv[k] == requested_member(kv, rv, k) by {
                assert(mv[k] == members@[k]@);
            }
        }
        return members;
    }
    let mut members: Vec<PublicMember> = Vec::new();
    let mut lows: Vec<Vec<char>> = Vec::new();
    let mut i: usize = 0;
    while i < records.len()
        invariant
            i <= records@.len(),
            rv == models::records_view(records@),
            lows@.len() == members@.len(),
            forall|k: int|
                0 <= k < lows@.len() ==> (#[trigger] lows@[k])@ == text::lowercase_of(
                    members@[k].nickname@,
                ),
            forall|a: int, b: int|
                0 <= a < b < lows@.len() ==> text::lex_le(
                    (#[trigger] lows@[a])@,
                    (#[trigger] lows@[b])@,
                ),
            protocol::members_view(members@).to_multiset() == listed_members(
                rv,
                i as nat,
            ).to_multiset(),
        decreases records@.len() - i,
    {
        let ghost before = protocol::members_view(members@);
        if !seen_before(&records, i) {
            let group = records_with_key(&records, &records[i].nickname_key);
            proof {
                lemma_group_contains(rv, i as int);
            }
            let member = public_member_group(group.as_slice());
            if member.status == PublicMemberStatus::Found {
                let low = chars_of(lowercase_string(member.nickname.as_str()).as_str());
                let mut p: usize = 0;
                while p < lows.len() && chars_le(&lows[p], &low)
                    invariant
                        p <= lows@.len(),
                        forall|k: int| 0 <= k < p ==> text::lex_le((#[trigger] lows@[k])@, low@),
                    decreases lows@.len() - p,
                {
                    p = p + 1;
                }
                proof {
                    if p < lows@.len() {
                        text::lemma_lex_le_total(lows@[p as int]@, low@);
                    }
                }
                let ghost old_lows = lows@;
                let ghost m = member@;
                members.insert(p, member);
                lows.insert(p, low);
                proof {
                    assert forall|k: int|
                        0 <= k < lows@.len() implies (#[trigger] lows@[k])@ == text::lowercase_of(
                        members@[k].nickname@,
                    ) by {
                        if k < p {
                        } else if k == p {
                        } else {
                            assert(lows@[k] == old_lows[k - 1]);
                        }
                    }
                    assert forall|a: int, b: int|
                        0 <= a < b < lows@.len() implies text::lex_le(
                        (#[trigger] lows@[a])@,
                        (#[trigger] lows@[b])@,
                    ) by {
                        if b < p {
                            assert(lows@[a] == old_lows[a] && lows@[b] == old_lows[b]);
                        } else if b == p {
                            assert(lows@[a] == old_lows[a]);
                        } else if a < p {
                            assert(lows@[a] == old_lows[a] && lows@[b] == old_lows[b - 1]);
                            assert(text::lex_le(old_lows[a]@, low@));
                            assert(text::lex_le(low@, old_lows[p as int]@));
                            if b - 1 > p {
                                assert(text::lex_le(old_lows[p as int]@, old_lows[b - 1]@));
                                text::lemma_lex_le_transitive(
                                    low@,
                                    old_lows[p as int]@,
                                    old_lows[b - 1]@,
                                );
                            }
                            text::lemma_lex_le_transitive(old_lows[a]@, low@, old_lows[b - 1]@);
                        } else if a == p {
                            assert(lows@[b] == old_lows[b - 1]);
                            if b - 1 > p {
                                assert(text::lex_le(old_lows[p as int]@, old_lows[b - 1]@));
                                text::lemma_lex_le_transitive(
                                    low@,
                                    old_lows[p as int]@,
                                    old_lows[b - 1]@,
                                );
                            }
                        } else {
                            assert(lows@[a] == old_lows[a - 1] && lows@[b] == old_lows[b - 1]);
                        }
                    }
                    assert(protocol::members_view(members@) =~= before.insert(p as int, m));
                    vstd::seq_lib::to_multiset_insert(before, p as int, m);
                }
            }
        }
        i = i + 1;
    }
    proof {
        let mv = protocol::members_view(members@);
        assert forall|a: int, b: int| 0 <= a < b < mv.len() implies text::lex_le(
            text::lowercase_of(#[trigger] mv[a].nickname),
            text::lowercase_of(#[trigger] mv[b].nickname),
        ) by {
            assert(text::lex_le(lows@[a]@, lows@[b]@));
        }
    }
    members
}

/// The key of `records[i]` has a non-empty group.
proof fn lemma_group_contains(records: Seq<MemberRecordView>, i: int)
    requires
        0 <= i < records.len(),
    ensures
        group_of(records, records[i].nickname_key).len() > 0,
{
    let pred = has_key(records[i].nickname_key);
    assert(pred(records[i]));
    assert(records.contains(records[i]));
    records.lemma_filter_contains_rev(pred, records[i]);
    assert(records.filter(pred).contains(records[i]));
}

/// Every member of the full roster has status `Found` and badges.
proof fn lemma_listed_members_found(records: Seq<MemberRecordView>, n: nat)
    requires
        n <= records.len(),
    ensures
        forall|i: int|
            0 <= i < listed_members(records, n).len() ==> (#[trigger] listed_members(records, n)[i]).status
                == PublicMemberStatus::Found && listed_members(records, n)[i].badges.len() > 0,
    decreases n,
{
    if n > 0 {
        lemma_listed_members_found(records, (n - 1) as nat);
        let i = n - 1;
        if !key_seen_before(records, i) {
            lemma_group_contains(records, i);
        }
    }
}

proof fn lemma_group_none(records: Seq<MemberRecordView>, key: Seq<char>)
    requires
        forall|k: int| 0 <= k < records.len() ==> records[k].nickname_key != key,
    ensures
        group_of(records, key).len() == 0,
    decreases records.len(),
{
    reveal(Seq::filter);
    if records.len() > 0 {
        let init = records.drop_last();
        assert forall|k: int| 0 <= k < init.len() implies init[k].nickname_key != key by {
            assert(init[k] == records[k]);
        }
        lemma_group_none(init, key);
    }
}

proof fn lemma_group_single(records: Seq<MemberRecordView>, key: Seq<char>, j: int)
    requires
        0 <= j < records.len(),
        records[j].nickname_key == key,
        forall|k: int| 0 <= k < records.len() && k != j ==> records[k].nickname_key != key,
    ensures
        group_of(records, key) == seq![records[j]],
    decreases records.len(),
{
    reveal(Seq::filter);
    let init = records.drop_last();
    if j == records.len() - 1 {
        assert forall|k: int| 0 <= k < init.len() implies init[k].nickname_key != key by {
            assert(init[k] == records[k]);
        }
        lemma_group_none(init, key);
        assert(group_of(init, key) =~= Seq::<MemberRecordView>::empty());
        assert(group_of(records, key) =~= seq![records[j]]);
    } else {
        assert forall|k: int| 0 <= k < init.len() && k != j implies init[k].nickname_key != key by {
            assert(init[k] == records[k]);
        }
        assert(init[j] == records[j]);
        lemma_group_single(init, key, j);
        assert(records.last().nickname_key != key);
    }
}

proof fn lemma_group_first_and_more(records: Seq<MemberRecordView>, key: Seq<char>, j1: int, j2: int)
    requires
        0 <= j1 < j2 < records.len(),
        records[j1].nickname_key == key,
        records[j2].nickname_key == key,
        forall|k: int| 0 <= k < j1 ==> records[k].nickname_key != key,
    ensures
        group_of(records, key).len() >= 2,
        group_of(records, key)[0] == records[j1],
    decreases records.len(),
{
    reveal(Seq::filter);
    let init = records.drop_last();
    if j2 == records.len() - 1 {
        lemma_group_first(init, key, j1);
        assert(group_of(records, key) == group_of(init, key).push(records.last()));
    } else {
        assert(init[j1] == records[j1]);
        assert(init[j2] == records[j2]);
        assert forall|k: int| 0 <= k < j1 implies init[k].nickname_key != key by {
            assert(init[k] == records[k]);
        }
        lemma_group_first_and_more(init, key, j1, j2);
    }
}

proof fn lemma_group_first(records: Seq<MemberRecordView>, key: Seq<char>, j: int)
    requires
        0 <= j < records.len(),
        records[j].nickname_key == key,
        forall|k: int| 0 <= k < j ==> records[k].nickname_key != key,
    ensures
        group_of(records, key).len() >= 1,
        group_of(records, key)[0] == records[j],
    decreases records.len(),
{
    reveal(Seq::filter);
    let init = records.drop_last();
    if j == records.len() - 1 {
        assert forall|k: int| 0 <= k < init.len() implies init[k].nickname_key != key by {
            assert(init[k] == records[k]);
        }
        lemma_group_none(init, key);
        assert(group_of(records, key) =~= seq![records[j]]);
    } else {
        assert(init[j] == records[j]);
        assert forall|k: int| 0 <= k < j implies init[k].nickname_key != key by {
            assert(init[k] == records[k]);
        }
        lemma_group_first(init, key, j);
    }
}

/// How a requested nickname (one the request has not named before) is
/// answered: when no stored record has its key, `NotFound` under the key
/// itself; when exactly one does, that record's raw nickname, `Found` with
/// all of the record's badges in their order when it has badges, or
/// `NotFound` without badges when it has none; when two or more do,
/// `Ambiguous` under the first one's raw nickname, without badges.
pub proof fn lemma_requested_nickname_answer(
    keys: Seq<Seq<char>>,
    records: Seq<MemberRecordView>,
    members: Seq<PublicMemberView>,
    i: int,
)
    requires
        presents(keys, records, members),
        0 <= i < keys.len(),
        forall|k: int| 0 <= k < i ==> keys[k] != keys[i],
    ensures
        members.len() == keys.len(),
        (forall|j: int| 0 <= j < records.len() ==> records[j].nickname_key != keys[i]) ==> members[i]
            == (PublicMemberView { nickname: keys[i], status: PublicMemberStatus::NotFound, badges: seq![] }),
        forall|j: int|
            0 <= j < records.len() && records[j].nickname_key == keys[i] && (forall|k: int|
                0 <= k < records.len() && k != j ==> records[k].nickname_key != keys[i]) ==> {
                &&& members[i].nickname == records[j].nickname_raw
                &&& records[j].badges.len() > 0 ==> members[i].status == PublicMemberStatus::Found
                    && members[i].badges == records[j].badges
                &&& records[j].badges.len() == 0 ==> members[i].status == PublicMemberStatus::NotFound
                    && members[i].badges.len() == 0
            },
        forall|j1: int, j2: int|
            0 <= j1 < j2 < records.len() && records[j1].nickname_key == keys[i] && records[j2].nickname_key
                == keys[i] && (forall|k: int| 0 <= k < j1 ==> records[k].nickname_key != keys[i]) ==> members[i]
                == (PublicMemberView {
                nickname: records[j1].nickname_raw,
                status: PublicMemberStatus::Ambiguous,
                badges: seq![],
            }),
{
    let key = keys[i];
    assert(members[i] == requested_member(keys, records, i));
    assert(!keys.take(i).contains(key)) by {
        if keys.take(i).contains(key) {
            let k = choose|k: int| 0 <= k < keys.take(i).len() && keys.take(i)[k] == key;
            assert(keys[k] == key);
        }
    }
    if forall|j: int| 0 <= j < records.len() ==> records[j].nickname_key != key {
        lemma_group_none(records, key);
    }
    assert forall|j: int|
        0 <= j < records.len() && records[j].nickname_key == key && (forall|k: int|
            0 <= k < records.len() && k != j ==> records[k].nickname_key != key) implies {
            &&& members[i].nickname == records[j].nickname_raw
            &&& records[j].badges.len() > 0 ==> members[i].status == PublicMemberStatus::Found
                && members[i].badges == records[j].badges
            &&& records[j].badges.len() == 0 ==> members[i].status == PublicMemberStatus::NotFound
                && members[i].badges.len() == 0
        } by {
        lemma_group_single(records, key, j);
    }
    assert forall|j1: int, j2: int|
        0 <= j1 < j2 < records.len() && records[j1].nickname_key == key && records[j2].nickname_key
            == key && (forall|k: int| 0 <= k < j1 ==> records[k].nickname_key != key) implies members[i]
            == (PublicMemberView {
            nickname: records[j1].nickname_raw,
            status: PublicMemberStatus::Ambiguous,
            badges: seq![],
        }) by {
        lemma_group_first_and_more(records, key, j1, j2);
    }
}

proof fn lemma_group_two(records: Seq<MemberRecordView>, key: Seq<char>, j1: int, j2: int)
    requires
        0 <= j1 < j2 < records.len(),
        records[j1].nickname_key == key,
        records[j2].nickname_key == key,
    ensures
        group_of(records, key).len() >= 2,
    decreases records.len(),
{
    reveal(Seq::filter);
    let init = records.drop_last();
    assert(init[j1] == records[j1]);
    if j2 == records.len() - 1 {
        lemma_group_contains(init, j1);
    } else {
        assert(init[j2] == records[j2]);
        lemma_group_two(init, key, j1, j2);
    }
}

/// `m` answers a record of `records` that alone has its key and has badges:
/// `Found`, under the record's raw nickname, with all of its badges.
pub open spec fn answers_sole_record(records: Seq<MemberRecordView>, m: PublicMemberView) -> bool {
    exists|j: int|
        0 <= j < records.len() && (#[trigger] records[j]).badges.len() > 0 && (forall|k: int|
            0 <= k < records.len() && k != j ==> records[k].nickname_key != records[j].nickname_key) && m == (
        PublicMemberView {
            nickname: records[j].nickname_raw,
            status: PublicMemberStatus::Found,
            badges: records[j].badges,
        })
}

proof fn lemma_listed_members_sole(records: Seq<MemberRecordView>, n: nat)
    requires
        n <= records.len(),
    ensures
        forall|x: int|
            0 <= x < listed_members(records, n).len() ==> answers_sole_record(
                records,
                #[trigger] listed_members(records, n)[x],
            ),
    decreases n,
{
    if n > 0 {
        lemma_listed_members_sole(records, (n - 1) as nat);
        let i = n - 1;
        let prev = listed_members(records, (n - 1) as nat);
        if !key_seen_before(records, i) {
            let key = records[i].nickname_key;
            let g = group_of(records, key);
            let m = group_member(g);
            if m.status == PublicMemberStatus::Found {
                lemma_group_contains(records, i);
                assert(g.len() == 1);
                assert forall|k: int| 0 <= k < records.len() && k != i implies records[k].nickname_key
                    != key by {
                    if records[k].nickname_key == key {
                        if k < i {
                            lemma_group_two(records, key, k, i);
                        } else {
                            lemma_group_two(records, key, i, k);
                        }
                    }
                }
                lemma_group_single(records, key, i);
                assert(m == PublicMemberView {
                    nickname: records[i].nickname_raw,
                    status: PublicMemberStatus::Found,
                    badges: records[i].badges,
                });
                assert(answers_sole_record(records, m));
                assert forall|x: int| 0 <= x < listed_members(records, n).len() implies answers_sole_record(
                    records,
                    #[trigger] listed_members(records, n)[x],
                ) by {
                    if x < prev.len() {
                        assert(listed_members(records, n)[x] == prev[x]);
                    }
                }
            }
        }
    }
}

/// Every member of the full roster (no nickname requested) answers a
/// stored record that alone has its nickname key and has badges: `Found`,
/// under that record's raw nickname, with all of its badges in their order.
pub proof fn lemma_full_roster_members(records: Seq<MemberRecordView>, members: Seq<PublicMemberView>)
    requires
        presents(seq![], records, members),
    ensures
        forall|x: int| 0 <= x < members.len() ==> answers_sole_record(records, #[trigger] members[x]),
{
    let listed = listed_members(records, records.len());
    lemma_listed_members_sole(records, records.len());
    assert(members.to_multiset() == listed.to_multiset());
    assert forall|x: int| 0 <= x < members.len() implies answers_sole_record(records, #[trigger] members[x]) by {
        let m = members[x];
        assert(members.to_multiset().count(m) > 0);
        assert(listed.to_multiset().count(m) > 0);
        assert(listed.contains(m));
        let y = choose|y: int| 0 <= y < listed.len() && listed[y] == m;
        assert(answers_sole_record(records, listed[y]));
    }
}

/// Ambiguous nicknames never carry badges, and the full roster (no requested
/// keys) lists only members whose status is `Found`, each with badges.
pub proof fn lemma_ambiguous_never_badged(
    keys: Seq<Seq<char>>,
    records: Seq<MemberRecordView>,
    members: Seq<PublicMemberView>,
)
    requires
        presents(keys, records, members),
    ensures
        forall|i: int|
            0 <= i < members.len() && (#[trigger] members[i]).status == PublicMemberStatus::Ambiguous
                ==> members[i].badges.len() == 0,
        keys.len() == 0 ==> forall|i: int|
            0 <= i < members.len() ==> (#[trigger] members[i]).status == PublicMemberStatus::Found
                && members[i].badges.len() > 0,
{
    if keys.len() == 0 {
        let listed = listed_members(records, records.len());
        lemma_listed_members_found(records, records.len());
        assert forall|i: int| 0 <= i < members.len() implies (#[trigger] members[i]).status
            == PublicMemberStatus::Found && members[i].badges.len() > 0 by {
            let m = members[i];
            assert(members.to_multiset().count(m) > 0);
            assert(listed.to_multiset().count(m) > 0);
            assert(listed.contains(m));
            let j = choose|j: int| 0 <= j < listed.len() && listed[j] == m;
            assert(listed[j].status == PublicMemberStatus::Found);
        }
    } else {
        assert forall|i: int|
            0 <= i < members.len() && (#[trigger] members[i]).status == PublicMemberStatus::Ambiguous
                implies members[i].badges.len() == 0 by {
            assert(members[i] == requested_member(keys, records, i));
        }
    }
}

} // verus!
