//! The decisions of a snapshot sync: validating and building the records,
//! applying the administrators' overrides, and deciding whether the stored
//! snapshot is kept, replaced, or the new one refused.
use super::error::CollectorError;
use crate::domain::errors::DomainError;
use crate::domain::member::{self, build_member_record};
use crate::domain::models::{self, BadgeRule, MemberRecord, MemberRecordView, RawMember, RawMemberView};
use crate::domain::nicknames::{self, normalize_nickname};
use crate::storage::overrides::{self, MemberOverride, MemberOverrideView};
use crate::text::{self, contains_string, copy_strings, strings_equal, trim};
use vstd::prelude::*;

verus! {

/// Announces that the stored snapshot reached a new revision.
#[derive(Debug, Clone)]
pub struct ChangeEvent {
    pub revision: i64,
}

/// A new snapshot must keep at least this share (in percent) of the stored
/// members that no override covers.
pub const MIN_RETAINED_SNAPSHOT_PERCENT: usize = 50;

/// The trimmed Discord IDs of a sequence of members.
pub open spec fn trimmed_ids(members: Seq<RawMember>) -> Seq<Seq<char>> {
    members.map_values(|m: RawMember| text::trim_seq(m.discord_id@))
}

/// `ids[j]` is the first ID that repeats an earlier one.
pub open spec fn is_first_repeat(ids: Seq<Seq<char>>, j: int) -> bool {
    &&& 0 <= j < ids.len()
    &&& ids.take(j).contains(ids[j])
    &&& forall|k: int| 0 <= k < j ==> !ids.take(k).contains(#[trigger] ids[k])
}

/// No two members share a trimmed Discord ID. Otherwise fails with
/// `DuplicateDiscordId` naming the first ID that repeats an earlier one.
pub fn validate_unique_discord_ids(raw_members: &[RawMember]) -> (r: Result<(), CollectorError>)
    ensures
        r is Ok <==> trimmed_ids(raw_members@).no_duplicates(),
        r matches Err(e) ==> exists|j: int|
            is_first_repeat(trimmed_ids(raw_members@), j) && (e matches CollectorError::Domain(
                DomainError::DuplicateDiscordId(id),
            ) && id@ == trimmed_ids(raw_members@)[j]),
{
    let ghost ids = trimmed_ids(raw_members@);
    let mut seen: Vec<String> = Vec::new();
    let mut i: usize = 0;
    while i < raw_members.len()
        invariant
            i <= raw_members@.len(),
            ids == trimmed_ids(raw_members@),
            seen.deep_view() == ids.take(i as int),
            ids.take(i as int).no_duplicates(),
            forall|k: int| 0 <= k < i ==> !ids.take(k).contains(#[trigger] ids[k]),
        decreases raw_members@.len() - i,
    {
        let id = trim(raw_members[i].discord_id.as_str());
        assert(id@ == ids[i as int]);
        assert(ids.take(i as int) == seen.deep_view());
        if contains_string(&seen, &id) {
            proof {
                assert(is_first_repeat(ids, i as int));
                assert(!ids.no_duplicates()) by {
                    let k = choose|k: int| 0 <= k < i && ids.take(i as int)[k] == ids[i as int];
                    assert(ids[k] == ids[i as int]);
                }
            }
            return Err(CollectorError::Domain(DomainError::DuplicateDiscordId(id)));
        }
        seen.push(id);
        proof {
            assert(seen.deep_view() =~= ids.take(i + 1));
            let t = ids.take(i + 1);
            assert forall|a: int, b: int|
                0 <= a < t.len() && 0 <= b < t.len() && a != b implies
                #[trigger] t[a] != #[trigger] t[b] by {
                if a == i {
                    assert(ids.take(i as int)[b] == ids[b]);
                } else if b == i {
                    assert(ids.take(i as int)[a] == ids[a]);
                } else {
                    assert(ids.take(i as int)[a] == ids[a] && ids.take(i as int)[b] == ids[b]);
                }
            }
        }
        i = i + 1;
    }
    assert(ids.take(i as int) =~= ids);
    Ok(())
}

/// Whether a collected member yields a record.
pub open spec fn member_ok(raw: RawMemberView) -> bool {
    text::trim_seq(raw.discord_id).len() > 0 && nicknames::nickname_key_of(raw.nickname) is Some
}

/// The error a collected member that yields no record gives.
pub open spec fn member_error(raw: RawMemberView, e: DomainError) -> bool {
    if text::trim_seq(raw.discord_id).len() == 0 {
        e is EmptyDiscordId
    } else {
        e is EmptyNickname
    }
}

/// The record built from a collected member that yields one.
pub open spec fn built_record(raw: RawMemberView, rules: Seq<BadgeRule>, observed_at: i64) -> MemberRecordView {
    member::record_of(raw, nicknames::nickname_key_of(raw.nickname)->0, models::rules_view(rules), observed_at)
}

/// Builds the records of a snapshot, in order. Fails with the error of the
/// first member that yields no record.
pub fn build_snapshot_records(raw_members: Vec<RawMember>, rules: &[BadgeRule], observed_at: i64) -> (r: Result<
    Vec<MemberRecord>,
    CollectorError,
>)
    ensures
        r matches Ok(records) ==> (forall|i: int| 0 <= i < raw_members@.len() ==> member_ok(#[trigger] raw_members@[i]@))
            && records@.len() == raw_members@.len()
            && forall|i: int| 0 <= i < records@.len() ==> (#[trigger] records@[i])@ == built_record(raw_members@[i]@, rules@, observed_at),
        r matches Err(err) ==> exists|j: int| 0 <= j < raw_members@.len() && !member_ok(#[trigger] raw_members@[j]@)
            && (forall|k: int| 0 <= k < j ==> member_ok(#[trigger] raw_members@[k]@))
            && (err matches CollectorError::Domain(e) && member_error(raw_members@[j]@, e)),
{
    let ghost all = raw_members@;
    let mut records: Vec<MemberRecord> = Vec::new();
    let n = raw_members.len();
    let members = raw_members;
    let mut i: usize = 0;
    while i < n
        invariant
            n == all.len(),
            i <= n,
            members@ == all,
            all == raw_members@,
            records@.len() == i,
            forall|k: int| 0 <= k < i ==> member_ok(#[trigger] all[k]@),
            forall|k: int| 0 <= k < i ==> (#[trigger] records@[k])@ == built_record(all[k]@, rules@, observed_at),
        decreases n - i,
    {
        let raw = members[i].duplicate();
        match build_member_record(raw, rules, observed_at) {
            Ok(record) => {
                records.push(record);
            },
            Err(e) => {
                proof {
                    assert(!member_ok(all[i as int]@));
                    assert(member_error(all[i as int]@, e));
                    assert(raw_members@[i as int] == all[i as int]);
                }
                return Err(CollectorError::Domain(e));
            },
        }
        i = i + 1;
    }
    Ok(records)
}

/// The record an override stands for, observed at `observed_at`.
pub open spec fn override_record(o: MemberOverrideView, key: Seq<char>, observed_at: i64) -> MemberRecordView {
    MemberRecordView {
        discord_id: o.discord_id,
        nickname_raw: text::trim_seq(o.nickname_raw),
        nickname_key: key,
        role_ids: o.role_ids,
        badges: o.badges,
        observed_at,
    }
}

/// Whether `records[i]` is the first record with Discord ID `id`.
pub open spec fn is_first_with_id(records: Seq<MemberRecordView>, id: Seq<char>, i: int) -> bool {
    &&& 0 <= i < records.len()
    &&& records[i].discord_id == id
    &&& forall|k: int| 0 <= k < i ==> (#[trigger] records[k]).discord_id != id
}

/// `records` with `r` in place of the first record with its Discord ID, or
/// with `r` appended when there is none.
pub open spec fn replace_or_append(records: Seq<MemberRecordView>, r: MemberRecordView) -> Seq<MemberRecordView> {
    if exists|i: int| is_first_with_id(records, r.discord_id, i) {
        records.update(choose|i: int| is_first_with_id(records, r.discord_id, i), r)
    } else {
        records.push(r)
    }
}

/// Every override names a nickname with a key.
pub open spec fn overrides_keyed(overrides: Seq<MemberOverrideView>) -> bool {
    forall|i: int| 0 <= i < overrides.len() ==> (#[trigger] nicknames::nickname_key_of(overrides[i].nickname_raw)) is Some
}

/// `records` with each of `overrides` applied in turn.
pub open spec fn with_overrides(
    records: Seq<MemberRecordView>,
    overrides: Seq<MemberOverrideView>,
    observed_at: i64,
) -> Seq<MemberRecordView>
    decreases overrides.len(),
{
    if overrides.len() == 0 {
        records
    } else {
        let o = overrides.last();
        replace_or_append(
            with_overrides(records, overrides.drop_last(), observed_at),
            override_record(o, nicknames::nickname_key_of(o.nickname_raw)->0, observed_at),
        )
    }
}

/// The position of the first record with Discord ID `id`, if any.
fn position_of_id(records: &Vec<MemberRecord>, id: &String) -> (p: Option<usize>)
    ensures
        p matches Some(j) ==> is_first_with_id(models::records_view(records@), id@, j as int),
        p is None ==> !exists|c: int| is_first_with_id(models::records_view(records@), id@, c),
{
    let ghost rv = models::records_view(records@);
    let mut j: usize = 0;
    while j < records.len()
        invariant
            j <= records@.len(),
            rv == models::records_view(records@),
            forall|k: int| 0 <= k < j ==> (#[trigger] rv[k]).discord_id != id@,
        decreases records@.len() - j,
    {
        assert(rv[j as int] == records@[j as int]@);
        if records[j].discord_id == *id {
            return Some(j);
        }
        j = j + 1;
    }
    proof {
        assert forall|c: int| !is_first_with_id(rv, id@, c) by {
            if 0 <= c < rv.len() {
                assert(rv[c].discord_id != id@);
            }
        }
    }
    None
}

/// The first record with an ID is unique.
proof fn lemma_first_with_id_unique(records: Seq<MemberRecordView>, id: Seq<char>, i: int, j: int)
    requires
        is_first_with_id(records, id, i),
        is_first_with_id(records, id, j),
    ensures
        i == j,
{
    if i < j {
        assert(records[i].discord_id != id);
    } else if j < i {
        assert(records[j].discord_id != id);
    }
}

/// Applies the administrators' overrides in order: each replaces the first
/// record with its Discord ID, or is appended when there is none. Fails with
/// `EmptyNickname` when an override's nickname has no key.
pub fn apply_overrides(records: Vec<MemberRecord>, overrides: Vec<MemberOverride>, observed_at: i64) -> (r: Result<
    Vec<MemberRecord>,
    CollectorError,
>)
    ensures
        r is Ok <==> overrides_keyed(overrides::overrides_view(overrides@)),
        r matches Ok(out) ==> models::records_view(out@) == with_overrides(
            models::records_view(records@),
            overrides::overrides_view(overrides@),
            observed_at,
        ),
        r matches Err(err) ==> (err matches CollectorError::Domain(e) && e is EmptyNickname),
        r is Err <==> exists|i: int|
            0 <= i < overrides@.len() && #[trigger] text::trim_seq(overrides@[i]@.nickname_raw).len() == 0,
{
    let ghost ov = overrides::overrides_view(overrides@);
    let ghost start = models::records_view(records@);
    let mut records = records;
    let mut i: usize = 0;
    while i < overrides.len()
        invariant
            i <= overrides@.len(),
            ov == overrides::overrides_view(overrides@),
            overrides_keyed(ov.take(i as int)),
            forall|j: int| 0 <= j < i ==> text::trim_seq(#[trigger] overrides@[j]@.nickname_raw).len() > 0,
            models::records_view(records@) == with_overrides(start, ov.take(i as int), observed_at),
        decreases overrides@.len() - i,
    {
        let o = &overrides[i];
        assert(ov[i as int] == o@);
        let nickname_key = match normalize_nickname(o.nickname_raw.as_str()) {
            Ok(key) => key,
            Err(e) => {
                proof {
                    assert(!overrides_keyed(ov)) by {
                        assert(nicknames::nickname_key_of(ov[i as int].nickname_raw) is None);
                    }
                }
                return Err(CollectorError::Domain(e));
            },
        };
        let replacement = MemberRecord {
            discord_id: o.discord_id.clone(),
            nickname_raw: trim(o.nickname_raw.as_str()),
            nickname_key,
            role_ids: copy_strings(&o.role_ids),
            badges: copy_strings(&o.badges),
            observed_at,
        };
        let ghost rep = replacement@;
        let ghost before = models::records_view(records@);
        proof {
            assert(ov.take(i + 1).drop_last() =~= ov.take(i as int));
            assert(ov.take(i + 1).last() == ov[i as int]);
            assert(rep == override_record(ov[i as int], nicknames::nickname_key_of(ov[i as int].nickname_raw)->0, observed_at));
            assert forall|k: int| 0 <= k < i + 1 implies (#[trigger] nicknames::nickname_key_of(ov.take(i + 1)[k].nickname_raw)) is Some by {
                if k < i {
                    assert(ov.take(i + 1)[k] == ov.take(i as int)[k]);
                }
            }
        }
        let position = position_of_id(&records, &replacement.discord_id);
        match position {
            Some(j) => {
                proof {
                    let c = choose|c: int| is_first_with_id(before, rep.discord_id, c);
                    lemma_first_with_id_unique(before, rep.discord_id, j as int, c);
                }
                records.set(j, replacement);
                assert(models::records_view(records@) =~= before.update(j as int, rep));
            },
            None => {
                records.push(replacement);
                assert(models::records_view(records@) =~= before.push(rep));
            },
        }
        i = i + 1;
    }
    assert(ov.take(i as int) =~= ov);
    Ok(records)
}

/// The Discord IDs of the overrides, in order.
pub fn override_ids(overrides: &[MemberOverride]) -> (ids: Vec<String>)
    ensures
        ids@.len() == overrides@.len(),
        forall|i: int| 0 <= i < overrides@.len() ==> (#[trigger] ids@[i])@ == overrides@[i].discord_id@,
{
    let mut ids: Vec<String> = Vec::new();
    let mut i: usize = 0;
    while i < overrides.len()
        invariant
            i <= overrides@.len(),
            ids@.len() == i,
            forall|k: int| 0 <= k < i ==> (#[trigger] ids@[k])@ == overrides@[k].discord_id@,
        decreases overrides@.len() - i,
    {
        ids.push(overrides[i].discord_id.clone());
        i = i + 1;
    }
    ids
}

/// Whether a record's Discord ID is not among `ids`.
pub open spec fn not_overridden(ids: Seq<Seq<char>>) -> spec_fn(MemberRecordView) -> bool {
    |r: MemberRecordView| !ids.contains(r.discord_id)
}

/// How many records have a Discord ID that no override covers.
pub open spec fn size_without(records: Seq<MemberRecordView>, ids: Seq<Seq<char>>) -> nat {
    records.filter(not_overridden(ids)).len()
}

/// Counts the records whose Discord ID no override covers.
pub fn snapshot_size_without_overrides(records: &[MemberRecord], override_ids: &[String]) -> (n: usize)
    ensures
        n == size_without(models::records_view(records@), override_ids.deep_view()),
{
    let ghost rv = models::records_view(records@);
    let ghost ids = override_ids.deep_view();
    let mut n: usize = 0;
    let mut i: usize = 0;
    proof {
        reveal(Seq::filter);
        assert(rv.take(0) =~= Seq::<MemberRecordView>::empty());
    }
    while i < records.len()
        invariant
            i <= records@.len(),
            rv == models::records_view(records@),
            ids == override_ids.deep_view(),
            n == rv.take(i as int).filter(not_overridden(ids)).len(),
            n <= i,
        decreases records@.len() - i,
    {
        proof {
            assert(rv.take(i + 1) =~= rv.take(i as int).push(rv[i as int]));
            rv.take(i as int).lemma_filter_push(rv[i as int], not_overridden(ids));
        }
        assert(rv[i as int] == records@[i as int]@);
        if !contains_string(override_ids, &records[i].discord_id) {
            n = n + 1;
        }
        i = i + 1;
    }
    assert(rv.take(i as int) =~= rv);
    n
}

/// The smallest acceptable size of a new snapshot, given the size of the
/// stored one: half of it, rounded up (the product saturating at `usize::MAX`).
pub open spec fn minimum_size(previous: nat) -> nat {
    let product = if previous * 50 > usize::MAX { usize::MAX as nat } else { previous * 50 };
    ((product + 99) / 100) as nat
}

/// `previous.saturating_mul(MIN_RETAINED_SNAPSHOT_PERCENT).div_ceil(100)`.
pub fn minimum_snapshot_size(previous: usize) -> (m: usize)
    ensures
        m == minimum_size(previous as nat),
{
    let product: usize = if previous > usize::MAX / MIN_RETAINED_SNAPSHOT_PERCENT {
        usize::MAX
    } else {
        previous * MIN_RETAINED_SNAPSHOT_PERCENT
    };
    assert(product as int == (if (previous as int) * 50 > usize::MAX as int {
        usize::MAX as int
    } else {
        (previous as int) * 50
    })) by (nonlinear_arith)
        requires
            product as int == if previous > usize::MAX / 50 {
                usize::MAX as int
            } else {
                (previous as int) * 50
            },
    ;
    let m = product / 100 + if product % 100 != 0 { 1 } else { 0 };
    assert(m == (product + 99) / 100) by (nonlinear_arith)
        requires
            m == product / 100 + if product % 100 != 0 { 1int } else { 0int },
    ;
    m
}

/// Whether a record has Discord ID `id`.
pub open spec fn has_id(id: Seq<char>) -> spec_fn(MemberRecordView) -> bool {
    |r: MemberRecordView| r.discord_id == id
}

/// Two records agree in everything but when they were observed.
pub open spec fn same_content(a: MemberRecordView, b: MemberRecordView) -> bool {
    &&& a.discord_id == b.discord_id
    &&& a.nickname_raw == b.nickname_raw
    &&& a.nickname_key == b.nickname_key
    &&& a.role_ids == b.role_ids
    &&& a.badges == b.badges
}

/// Two sequences of records agree record by record, observation times aside.
pub open spec fn same_contents(a: Seq<MemberRecordView>, b: Seq<MemberRecordView>) -> bool {
    a.len() == b.len() && forall|i: int| 0 <= i < a.len() ==> same_content(#[trigger] a[i], b[i])
}

/// Two snapshots are the same: equally long, and for every Discord ID they
/// hold the same records, in the same order, observation times aside.
pub open spec fn same_snapshot(left: Seq<MemberRecordView>, right: Seq<MemberRecordView>) -> bool {
    &&& left.len() == right.len()
    &&& forall|id: Seq<char>| #[trigger] same_contents(left.filter(has_id(id)), right.filter(has_id(id)))
}

/// The records with Discord ID `id`, in order.
fn records_with_id(records: &[MemberRecord], id: &String) -> (g: Vec<MemberRecord>)
    ensures
        models::records_view(g@) == models::records_view(records@).filter(has_id(id@)),
{
    let ghost rv = models::records_view(records@);
    let mut g: Vec<MemberRecord> = Vec::new();
    let mut j: usize = 0;
    proof {
        assert(rv.take(0) =~= Seq::<MemberRecordView>::empty());
        reveal(Seq::filter);
    }
    while j < records.len()
        invariant
            j <= records@.len(),
            rv == models::records_view(records@),
            models::records_view(g@) == rv.take(j as int).filter(has_id(id@)),
        decreases records@.len() - j,
    {
        proof {
            assert(rv.take(j + 1) =~= rv.take(j as int).push(rv[j as int]));
            rv.take(j as int).lemma_filter_push(rv[j as int], has_id(id@));
        }
        assert(rv[j as int] == records@[j as int]@);
        if records[j].discord_id == *id {
            let r = records[j].duplicate();
            g.push(r);
            assert(models::records_view(g@) =~= rv.take(j as int).filter(has_id(id@)).push(rv[j as int]));
        }
        j = j + 1;
    }
    assert(rv.take(j as int) =~= rv);
    g
}

/// Whether two records agree, observation times aside.
fn records_agree(a: &MemberRecord, b: &MemberRecord) -> (r: bool)
    ensures
        r == same_content(a@, b@),
{
    a.discord_id == b.discord_id && a.nickname_raw == b.nickname_raw && a.nickname_key
        == b.nickname_key && strings_equal(&a.role_ids, &b.role_ids) && strings_equal(
        &a.badges,
        &b.badges,
    )
}

/// Whether two sequences of records agree record by record.
fn groups_agree(a: &Vec<MemberRecord>, b: &Vec<MemberRecord>) -> (r: bool)
    ensures
        r == same_contents(models::records_view(a@), models::records_view(b@)),
{
    let ghost av = models::records_view(a@);
    let ghost bv = models::records_view(b@);
    if a.len() != b.len() {
        return false;
    }
    let mut i: usize = 0;
    while i < a.len()
        invariant
            i <= a@.len(),
            a@.len() == b@.len(),
            av == models::records_view(a@),
            bv == models::records_view(b@),
            forall|k: int| 0 <= k < i ==> same_content(#[trigger] av[k], bv[k]),
        decreases a@.len() - i,
    {
        assert(av[i as int] == a@[i as int]@ && bv[i as int] == b@[i as int]@);
        if !records_agree(&a[i], &b[i]) {
            return false;
        }
        i = i + 1;
    }
    true
}

/// Without a record with Discord ID `id`, none is kept.
proof fn lemma_filter_absent(records: Seq<MemberRecordView>, id: Seq<char>)
    requires
        forall|k: int| 0 <= k < records.len() ==> (#[trigger] records[k]).discord_id != id,
    ensures
        records.filter(has_id(id)).len() == 0,
    decreases records.len(),
{
    reveal(Seq::filter);
    if records.len() > 0 {
        let rest = records.drop_last();
        assert forall|k: int| 0 <= k < rest.len() implies (#[trigger] rest[k]).discord_id != id by {
            assert(rest[k] == records[k]);
        }
        lemma_filter_absent(rest, id);
        assert(records.last() == records[records.len() - 1]);
    }
}

/// Whether two snapshots are the same (see `same_snapshot`).
pub fn snapshots_equal(left: &[MemberRecord], right: &[MemberRecord]) -> (r: bool)
    ensures
        r == same_snapshot(models::records_view(left@), models::records_view(right@)),
{
    let ghost lv = models::records_view(left@);
    let ghost rv = models::records_view(right@);
    if left.len() != right.len() {
        return false;
    }
    let mut i: usize = 0;
    while i < left.len()
        invariant
            i <= left@.len(),
            lv == models::records_view(left@),
            rv == models::records_view(right@),
            forall|k: int|
                0 <= k < i ==> same_contents(
                    lv.filter(has_id(#[trigger] lv[k].discord_id)),
                    rv.filter(has_id(lv[k].discord_id)),
                ),
        decreases left@.len() - i,
    {
        assert(lv[i as int] == left@[i as int]@);
        let id = &left[i].discord_id;
        let a = records_with_id(left, id);
        let b = records_with_id(right, id);
        if !groups_agree(&a, &b) {
            return false;
        }
        i = i + 1;
    }
    let mut j: usize = 0;
    while j < right.len()
        invariant
            j <= right@.len(),
            lv == models::records_view(left@),
            rv == models::records_view(right@),
            forall|k: int|
                0 <= k < right@.len() ==> same_contents(
                    lv.filter(has_id(#[trigger] rv[k].discord_id)),
                    rv.filter(has_id(rv[k].discord_id)),
                ) || k >= j,
            forall|k: int|
                0 <= k < left@.len() ==> same_contents(
                    lv.filter(has_id(#[trigger] lv[k].discord_id)),
                    rv.filter(has_id(lv[k].discord_id)),
                ),
        decreases right@.len() - j,
    {
        assert(rv[j as int] == right@[j as int]@);
        let id = &right[j].discord_id;
        let a = records_with_id(left, id);
        let b = records_with_id(right, id);
        if !groups_agree(&a, &b) {
            return false;
        }
        j = j + 1;
    }
    proof {
        assert forall|id: Seq<char>| #[trigger] same_contents(lv.filter(has_id(id)), rv.filter(has_id(id))) by {
            if exists|k: int| 0 <= k < lv.len() && lv[k].discord_id == id {
                let k = choose|k: int| 0 <= k < lv.len() && lv[k].discord_id == id;
                assert(same_contents(lv.filter(has_id(lv[k].discord_id)), rv.filter(has_id(lv[k].discord_id))));
            } else if exists|k: int| 0 <= k < rv.len() && rv[k].discord_id == id {
                let k = choose|k: int| 0 <= k < rv.len() && rv[k].discord_id == id;
                assert(same_contents(lv.filter(has_id(rv[k].discord_id)), rv.filter(has_id(rv[k].discord_id))));
            } else {
                lemma_filter_absent(lv, id);
                lemma_filter_absent(rv, id);
            }
        }
    }
    true
}

/// How many of `records` no override covers.
pub open spec fn retained_size(records: Seq<MemberRecord>, override_ids: Seq<Seq<char>>) -> nat {
    size_without(models::records_view(records), override_ids)
}

/// The smallest acceptable size of a snapshot that replaces `previous`.
pub open spec fn required_size(previous: Seq<MemberRecord>, override_ids: Seq<Seq<char>>) -> nat {
    minimum_size(retained_size(previous, override_ids))
}

/// What a sync does with a new snapshot.
#[derive(Debug)]
pub enum SnapshotDecision {
    /// The snapshot equals the stored one: only the sync time is recorded.
    Unchanged,
    /// The snapshot replaces the stored one.
    Replace(Vec<MemberRecord>),
}

/// Decides what becomes of a new snapshot. Counting only records that no
/// override covers, a snapshot smaller than half the stored one (rounded up)
/// is refused; one equal to the stored snapshot changes nothing; any other
/// replaces it.
pub fn decide_snapshot(previous: &[MemberRecord], records: Vec<MemberRecord>, override_ids: &[String]) -> (r: Result<
    SnapshotDecision,
    CollectorError,
>)
    ensures
        retained_size(records@, override_ids.deep_view()) < required_size(previous@, override_ids.deep_view()) ==> (r matches Err(
            CollectorError::SnapshotTooSmall { actual, minimum },
        ) && actual == retained_size(records@, override_ids.deep_view()) && minimum == required_size(
            previous@,
            override_ids.deep_view(),
        )),
        retained_size(records@, override_ids.deep_view()) >= required_size(previous@, override_ids.deep_view())
            && same_snapshot(models::records_view(previous@), models::records_view(records@)) ==> (r matches Ok(
            SnapshotDecision::Unchanged,
        )),
        retained_size(records@, override_ids.deep_view()) >= required_size(previous@, override_ids.deep_view())
            && !same_snapshot(models::records_view(previous@), models::records_view(records@)) ==> (r matches Ok(
            SnapshotDecision::Replace(rs),
        ) && models::records_view(rs@) == models::records_view(records@)),
{
    let previous_size = snapshot_size_without_overrides(previous, override_ids);
    let actual_size = snapshot_size_without_overrides(records.as_slice(), override_ids);
    let minimum_size = minimum_snapshot_size(previous_size);
    if actual_size < minimum_size {
        return Err(CollectorError::SnapshotTooSmall { actual: actual_size, minimum: minimum_size });
    }
    if snapshots_equal(previous, records.as_slice()) {
        return Ok(SnapshotDecision::Unchanged);
    }
    Ok(SnapshotDecision::Replace(records))
}

/// Filtering two agreeing sequences by Discord ID gives agreeing sequences.
proof fn lemma_filter_by_id_agrees(a: Seq<MemberRecordView>, b: Seq<MemberRecordView>, id: Seq<char>)
    requires
        same_contents(a, b),
    ensures
        same_contents(a.filter(has_id(id)), b.filter(has_id(id))),
    decreases a.len(),
{
    reveal(Seq::filter);
    if a.len() > 0 {
        let a0 = a.drop_last();
        let b0 = b.drop_last();
        assert(same_contents(a0, b0)) by {
            assert forall|i: int| 0 <= i < a0.len() implies same_content(#[trigger] a0[i], b0[i]) by {
                assert(same_content(a[i], b[i]));
            }
        }
        lemma_filter_by_id_agrees(a0, b0, id);
        assert(same_content(a[a.len() - 1], b[b.len() - 1]));
        let fa = a0.filter(has_id(id));
        let fb = b0.filter(has_id(id));
        if has_id(id)(a.last()) {
            let ga = fa.push(a.last());
            let gb = fb.push(b.last());
            assert forall|i: int| 0 <= i < ga.len() implies same_content(#[trigger] ga[i], gb[i]) by {
                if i < fa.len() {
                    assert(same_content(fa[i], fb[i]));
                }
            }
        }
    }
}

/// Two agreeing sequences have the same number of records that no override covers.
proof fn lemma_size_without_agrees(a: Seq<MemberRecordView>, b: Seq<MemberRecordView>, ids: Seq<Seq<char>>)
    requires
        same_contents(a, b),
    ensures
        size_without(a, ids) == size_without(b, ids),
    decreases a.len(),
{
    reveal(Seq::filter);
    if a.len() > 0 {
        let a0 = a.drop_last();
        let b0 = b.drop_last();
        assert(same_contents(a0, b0)) by {
            assert forall|i: int| 0 <= i < a0.len() implies same_content(#[trigger] a0[i], b0[i]) by {
                assert(same_content(a[i], b[i]));
            }
        }
        lemma_size_without_agrees(a0, b0, ids);
        assert(same_content(a[a.len() - 1], b[b.len() - 1]));
    }
}

/// The minimum size never exceeds the stored size.
pub proof fn lemma_minimum_at_most_previous(previous: nat)
    ensures
        minimum_size(previous) <= previous,
{
    let product = if previous * 50 > usize::MAX { usize::MAX as nat } else { previous * 50 };
    assert(((product + 99) / 100) as nat <= previous) by (nonlinear_arith)
        requires
            product <= previous * 50,
    ;
}

/// `records` holds a record with the Discord ID, raw nickname, key, role
/// list and badge list of `r`.
pub open spec fn holds_record(records: Seq<MemberRecordView>, r: MemberRecordView) -> bool {
    exists|j: int|
        0 <= j < records.len() && #[trigger] records[j].discord_id == r.discord_id
            && records[j].nickname_raw == r.nickname_raw && records[j].nickname_key == r.nickname_key
            && records[j].role_ids == r.role_ids && records[j].badges == r.badges
}

proof fn lemma_same_snapshot_matches_left(left: Seq<MemberRecordView>, right: Seq<MemberRecordView>, i: int)
    requires
        same_snapshot(left, right),
        0 <= i < left.len(),
    ensures
        holds_record(right, left[i]),
{
    let id = left[i].discord_id;
    let lf = left.filter(has_id(id));
    let rf = right.filter(has_id(id));
    assert(same_contents(lf, rf));
    left.lemma_filter_contains(has_id(id), i);
    let k = choose|k: int| 0 <= k < lf.len() && lf[k] == left[i];
    assert(same_content(lf[k], rf[k]));
    assert(rf.contains(rf[k]));
    right.lemma_filter_contains_rev(has_id(id), rf[k]);
    let j = choose|j: int| 0 <= j < right.len() && right[j] == rf[k];
    assert(right[j].discord_id == left[i].discord_id);
}

/// Two snapshots that count as the same (so that a new snapshot is kept as
/// unchanged) hold the same records: they are equally long, and every
/// record of either has a record in the other with the same Discord ID, raw
/// nickname, key, role list and badge list. A snapshot in which some
/// member's roles or badges changed is never the same as the stored one.
pub proof fn lemma_same_snapshot_keeps_roles_and_badges(left: Seq<MemberRecordView>, right: Seq<MemberRecordView>)
    requires
        same_snapshot(left, right),
    ensures
        left.len() == right.len(),
        forall|i: int| 0 <= i < left.len() ==> holds_record(right, #[trigger] left[i]),
        forall|j: int| 0 <= j < right.len() ==> holds_record(left, #[trigger] right[j]),
{
    assert forall|i: int| 0 <= i < left.len() implies holds_record(right, #[trigger] left[i]) by {
        lemma_same_snapshot_matches_left(left, right, i);
    }
    assert(same_snapshot(right, left)) by {
        assert forall|id: Seq<char>| #[trigger] same_contents(right.filter(has_id(id)), left.filter(has_id(id))) by {
            assert(same_contents(left.filter(has_id(id)), right.filter(has_id(id))));
        }
    }
    assert forall|j: int| 0 <= j < right.len() implies holds_record(left, #[trigger] right[j]) by {
        lemma_same_snapshot_matches_left(right, left, j);
    }
}

/// A snapshot that repeats the stored one record by record (observation
/// times aside) is never refused as too small, and counts as unchanged.
pub proof fn lemma_resubmission_changes_nothing(
    previous: Seq<MemberRecordView>,
    next: Seq<MemberRecordView>,
    override_ids: Seq<Seq<char>>,
)
    requires
        same_contents(previous, next),
    ensures
        size_without(next, override_ids) >= minimum_size(size_without(previous, override_ids)),
        same_snapshot(previous, next),
{
    lemma_size_without_agrees(previous, next, override_ids);
    lemma_minimum_at_most_previous(size_without(previous, override_ids));
    assert forall|id: Seq<char>| #[trigger] same_contents(previous.filter(has_id(id)), next.filter(has_id(id))) by {
        lemma_filter_by_id_agrees(previous, next, id);
    }
}

/// A snapshot that keeps fewer than half of the stored records (counting
/// records no override covers) is refused as too small.
pub proof fn lemma_losing_more_than_half_is_refused(previous: nat, next: nat)
    requires
        previous <= usize::MAX / 50,
        2 * next < previous,
    ensures
        next < minimum_size(previous),
{
    assert(next < ((previous * 50 + 99) / 100) as nat) by (nonlinear_arith)
        requires
            2 * next < previous,
    ;
}

/// A snapshot of half the stored records (rounded up), none of them
/// overridden, is never refused as too small.
pub proof fn lemma_half_is_enough(previous: nat, next: nat)
    requires
        previous <= usize::MAX / 50,
        2 * next >= previous,
    ensures
        next >= minimum_size(previous),
{
    assert(((previous * 50 + 99) / 100) as nat <= next) by (nonlinear_arith)
        requires
            2 * next >= previous,
    ;
}

} // verus!
