//! Laws of the board lifecycle, stated over the operations' specifications.
use crate::entry::EntryView;
use crate::error::ErrorView;
use crate::keys::{authority_of_option, fresh_keys, AuthorityLevel, KeySet};
use crate::store::{
    create_spec, delete_spec, find_spec, get_scores_spec, has_id, has_name, index_of_id,
    index_of_name, list_scores_spec, store_resolve_spec, submit_spec, valid, StoreView,
};
use crate::text::trim_of;
use vstd::prelude::*;

verus! {

/// The keys that a request presents to the board `name`.
pub open spec fn board_keys(s: StoreView, name: Seq<char>) -> KeySet {
    s.boards[index_of_name(s.boards, name)].keys
}

/// The scores of the board `name`.
pub open spec fn board_scores(s: StoreView, name: Seq<char>) -> Seq<EntryView> {
    s.boards[index_of_name(s.boards, name)].scores
}

/// The store after submitting `entries` one after the other to `name` with
/// the same key.
pub open spec fn submit_all(
    s: StoreView,
    name: Seq<char>,
    key: Option<Seq<char>>,
    entries: Seq<EntryView>,
) -> StoreView
    decreases entries.len(),
{
    if entries.len() == 0 {
        s
    } else {
        submit_spec(submit_all(s, name, key, entries.drop_last()), name, key, entries.last()).0
    }
}

proof fn lemma_id_of_name(s: StoreView, name: Seq<char>)
    requires
        valid(s),
        has_name(s.boards, name),
    ensures
        has_id(s.boards, s.boards[index_of_name(s.boards, name)].id),
        index_of_id(s.boards, s.boards[index_of_name(s.boards, name)].id) == index_of_name(
            s.boards,
            name,
        ),
{
    let i = index_of_name(s.boards, name);
    assert(s.boards[i].name == name);
    assert(has_id(s.boards, s.boards[i].id));
    let j = index_of_id(s.boards, s.boards[i].id);
    assert(s.boards[j].id == s.boards[i].id);
}

/// A valid name that no board uses gives a new board, found afterwards under
/// the trimmed name with the keys it was made with; fresh keys are three
/// distinct non-empty keys whenever the two short ones differ.
pub proof fn created_board_is_found(s: StoreView, name: Seq<char>, keys: KeySet)
    requires
        valid(s),
        fresh_keys(keys),
        keys.read != keys.submit,
    ensures
        trim_of(name).len() > 0 && !has_name(s.boards, trim_of(name)) && s.next_id < i32::MAX
            ==> create_spec(s, name, keys).1 is Ok,
        create_spec(s, name, keys).1 is Ok ==> valid(create_spec(s, name, keys).0) && find_spec(
            create_spec(s, name, keys).0,
            trim_of(name),
        ) == Some((create_spec(s, name, keys).1->Ok_0, keys)),
        keys.read.len() > 0 && keys.submit.len() > 0 && keys.admin.len() > 0,
        keys.read != keys.admin && keys.submit != keys.admin,
{
    let t = trim_of(name);
    let (after, r) = create_spec(s, name, keys);
    if r is Ok {
        let bs = after.boards;
        let n = s.boards.len() as int;
        assert(bs[n].name == t);
        assert(has_name(bs, t));
        assert forall|i: int, j: int| 0 <= i < j < bs.len() implies (#[trigger] bs[i]).name
            != (#[trigger] bs[j]).name && bs[i].id != bs[j].id by {
            if j == n {
                assert(s.boards[i] == bs[i]);
            }
        }
        assert(valid(after));
        let k = index_of_name(bs, t);
        assert(bs[k].name == t);
        if k != n {
            assert(s.boards[k] == bs[k]);
        }
    }
}

/// Creating a board under a name in use fails with `BoardAlreadyExists` and
/// changes nothing.
pub proof fn duplicate_name_is_rejected(s: StoreView, name: Seq<char>, keys: KeySet)
    requires
        valid(s),
        has_name(s.boards, trim_of(name)),
    ensures
        create_spec(s, name, keys) == (s, Err::<int, ErrorView>(
            ErrorView::BoardAlreadyExists(trim_of(name)),
        )),
{
    let i = choose|i: int| 0 <= i < s.boards.len() && (#[trigger] s.boards[i]).name == trim_of(
        name,
    );
    assert(s.boards[i].name.len() > 0);
}

/// Creating a board under a name that trims to nothing fails with
/// `InvalidBoardName` and changes nothing.
pub proof fn empty_name_is_rejected(s: StoreView, name: Seq<char>, keys: KeySet)
    requires
        trim_of(name).len() == 0,
    ensures
        create_spec(s, name, keys) == (s, Err::<int, ErrorView>(
            ErrorView::InvalidBoardName(trim_of(name)),
        )),
{
}

/// Against fresh keys whose two short keys differ, each key grants its own
/// tier, and any other key, or none, grants nothing.
pub proof fn each_key_grants_its_tier(keys: KeySet, other: Seq<char>)
    requires
        fresh_keys(keys),
        keys.read != keys.submit,
    ensures
        authority_of_option(keys, Some(keys.admin)) == AuthorityLevel::Admin,
        authority_of_option(keys, Some(keys.submit)) == AuthorityLevel::Submit,
        authority_of_option(keys, Some(keys.read)) == AuthorityLevel::Read,
        other != keys.admin && other != keys.submit && other != keys.read ==> authority_of_option(
            keys,
            Some(other),
        ) == AuthorityLevel::Unauthorized,
        authority_of_option(keys, None) == AuthorityLevel::Unauthorized,
{
}

proof fn lemma_submit_one(s: StoreView, name: Seq<char>, key: Option<Seq<char>>, e: EntryView)
    requires
        valid(s),
        has_name(s.boards, name),
        authority_of_option(board_keys(s, name), key).rank() >= AuthorityLevel::Submit.rank(),
    ensures
        ({
            let (after, r) = submit_spec(s, name, key, e);
            &&& r == Ok::<(), ErrorView>(())
            &&& valid(after)
            &&& after.boards.len() == s.boards.len()
            &&& after.next_id == s.next_id
            &&& forall|i: int|
                0 <= i < s.boards.len() ==> (#[trigger] after.boards[i]).name == s.boards[i].name
                    && after.boards[i].id == s.boards[i].id && after.boards[i].keys
                    == s.boards[i].keys
            &&& has_name(after.boards, name)
            &&& index_of_name(after.boards, name) == index_of_name(s.boards, name)
            &&& board_scores(after, name) == board_scores(s, name).push(e)
        }),
{
    lemma_id_of_name(s, name);
    let i = index_of_name(s.boards, name);
    let (after, r) = submit_spec(s, name, key, e);
    assert(after.boards[i].name == name);
    assert(has_name(after.boards, name));
    let k = index_of_name(after.boards, name);
    assert(after.boards[k].name == name);
    assert(k == i) by {
        if k != i {
            if k < i {
                assert(s.boards[k].name != s.boards[i].name);
            } else {
                assert(s.boards[i].name != s.boards[k].name);
            }
        }
    }
}

proof fn lemma_submit_all(
    s: StoreView,
    name: Seq<char>,
    key: Option<Seq<char>>,
    entries: Seq<EntryView>,
)
    requires
        valid(s),
        has_name(s.boards, name),
        authority_of_option(board_keys(s, name), key).rank() >= AuthorityLevel::Submit.rank(),
    ensures
        ({
            let after = submit_all(s, name, key, entries);
            &&& valid(after)
            &&& has_name(after.boards, name)
            &&& index_of_name(after.boards, name) == index_of_name(s.boards, name)
            &&& board_keys(after, name) == board_keys(s, name)
            &&& board_scores(after, name) == board_scores(s, name) + entries
        }),
    decreases entries.len(),
{
    if entries.len() == 0 {
        assert(board_scores(s, name) + entries =~= board_scores(s, name));
    } else {
        let prefix = entries.drop_last();
        lemma_submit_all(s, name, key, prefix);
        let mid = submit_all(s, name, key, prefix);
        lemma_submit_one(mid, name, key, entries.last());
        assert(board_scores(s, name) + prefix + seq![entries.last()] =~= board_scores(s, name)
            + entries);
        assert(board_scores(mid, name).push(entries.last()) =~= board_scores(mid, name) + seq![
            entries.last(),
        ]);
    }
}

/// Submitting entries one after the other with a key of at least `Submit`
/// succeeds each time, and a listing with a key of at least `Read` then
/// returns the board's earlier scores followed by exactly those entries, in
/// submission order.
pub proof fn submissions_are_listed_in_order(
    s: StoreView,
    name: Seq<char>,
    submit_key: Option<Seq<char>>,
    read_key: Option<Seq<char>>,
    entries: Seq<EntryView>,
)
    requires
        valid(s),
        has_name(s.boards, name),
        authority_of_option(board_keys(s, name), submit_key).rank()
            >= AuthorityLevel::Submit.rank(),
        authority_of_option(board_keys(s, name), read_key).rank() >= AuthorityLevel::Read.rank(),
    ensures
        forall|k: int|
            0 <= k < entries.len() ==> (#[trigger] submit_spec(
                submit_all(s, name, submit_key, entries.take(k)),
                name,
                submit_key,
                entries[k],
            )).1 == Ok::<(), ErrorView>(()),
        get_scores_spec(submit_all(s, name, submit_key, entries), name, read_key) == Ok::<
            Seq<EntryView>,
            ErrorView,
        >(board_scores(s, name) + entries),
        board_scores(s, name).len() == 0 ==> get_scores_spec(
            submit_all(s, name, submit_key, entries),
            name,
            read_key,
        ) == Ok::<Seq<EntryView>, ErrorView>(entries),
{
    assert forall|k: int| 0 <= k < entries.len() implies (#[trigger] submit_spec(
        submit_all(s, name, submit_key, entries.take(k)),
        name,
        submit_key,
        entries[k],
    )).1 == Ok::<(), ErrorView>(()) by {
        lemma_submit_all(s, name, submit_key, entries.take(k));
        lemma_submit_one(
            submit_all(s, name, submit_key, entries.take(k)),
            name,
            submit_key,
            entries[k],
        );
    }
    lemma_submit_all(s, name, submit_key, entries);
    let after = submit_all(s, name, submit_key, entries);
    lemma_id_of_name(after, name);
    if board_scores(s, name).len() == 0 {
        assert(board_scores(s, name) + entries =~= entries);
    }
}

/// A submission with no key fails with `Unauthorized`, one with a read key
/// fails with `Forbidden`, and neither changes the store.
pub proof fn low_tier_submission_is_refused(
    s: StoreView,
    name: Seq<char>,
    key: Option<Seq<char>>,
    e: EntryView,
)
    requires
        valid(s),
        has_name(s.boards, name),
    ensures
        key is None ==> submit_spec(s, name, key, e) == (s, Err::<(), ErrorView>(
            ErrorView::Unauthorized,
        )),
        authority_of_option(board_keys(s, name), key) == AuthorityLevel::Read ==> submit_spec(
            s,
            name,
            key,
            e,
        ) == (s, Err::<(), ErrorView>(ErrorView::Forbidden)),
{
}

/// Deleting a board with its admin key succeeds; afterwards no board has its
/// name or its id, so resolving it or listing its scores fails with
/// `NoSuchBoard` and its scores are gone.
pub proof fn deleted_board_is_gone(
    s: StoreView,
    name: Seq<char>,
    key: Option<Seq<char>>,
    later_key: Option<Seq<char>>,
)
    requires
        valid(s),
        has_name(s.boards, name),
        authority_of_option(board_keys(s, name), key) == AuthorityLevel::Admin,
    ensures
        ({
            let (after, r) = delete_spec(s, name, key);
            let id = s.boards[index_of_name(s.boards, name)].id;
            &&& r == Ok::<(), ErrorView>(())
            &&& valid(after)
            &&& !has_name(after.boards, name)
            &&& store_resolve_spec(after, name, later_key) == Err::<(int, AuthorityLevel), ErrorView>(
                ErrorView::NoSuchBoard(name),
            )
            &&& get_scores_spec(after, name, later_key) == Err::<Seq<EntryView>, ErrorView>(
                ErrorView::NoSuchBoard(name),
            )
            &&& list_scores_spec(after, id) is None
        }),
{
    lemma_id_of_name(s, name);
    let i = index_of_name(s.boards, name);
    let id = s.boards[i].id;
    let (after, r) = delete_spec(s, name, key);
    let bs = after.boards;
    assert(bs == s.boards.remove(i));
    assert forall|a: int, b: int| 0 <= a < b < bs.len() implies (#[trigger] bs[a]).name
        != (#[trigger] bs[b]).name && bs[a].id != bs[b].id by {
        let a0 = if a < i { a } else { a + 1 };
        let b0 = if b < i { b } else { b + 1 };
        assert(bs[a] == s.boards[a0]);
        assert(bs[b] == s.boards[b0]);
    }
    assert forall|a: int| 0 <= a < bs.len() implies (#[trigger] bs[a]).name.len() > 0 && 0
        <= bs[a].id < after.next_id by {
        let a0 = if a < i { a } else { a + 1 };
        assert(bs[a] == s.boards[a0]);
    }
    assert(!has_name(bs, name)) by {
        if has_name(bs, name) {
            let a = choose|a: int| 0 <= a < bs.len() && (#[trigger] bs[a]).name == name;
            let a0 = if a < i { a } else { a + 1 };
            assert(bs[a] == s.boards[a0]);
        }
    }
    assert(!has_id(bs, id)) by {
        if has_id(bs, id) {
            let a = choose|a: int| 0 <= a < bs.len() && (#[trigger] bs[a]).id == id;
            let a0 = if a < i { a } else { a + 1 };
            assert(bs[a] == s.boards[a0]);
        }
    }
}

} // verus!
