//! Boards and their scores, kept in memory. Each operation is specified by a
//! spec function from the store's view (and the request) to the next view
//! and the outcome.
use crate::auth::{
    check_auth, check_auth_spec, found_view, presented_view, resolve_board, resolve_spec,
    resolved_view, validate_board_name, Id,
};
use crate::entry::{clone_entries, entries_view, EntryView, ScoreEntry};
use crate::error::{unit_result, ErrorView, RequestError};
use crate::keys::{fresh_keys, ApiKey, AuthorityLevel, BoardKeys, KeySet};
use crate::text::{blank, trim_of};
use vstd::prelude::*;
use vstd::string::StringExecFns;

verus! {

/// A board as the contracts see it.
pub struct BoardView {
    pub id: int,
    pub name: Seq<char>,
    pub keys: KeySet,
    pub scores: Seq<EntryView>,
}

/// The whole store as the contracts see it: the boards in order of creation
/// and the id the next board will get.
pub struct StoreView {
    pub boards: Seq<BoardView>,
    pub next_id: int,
}

/// Is some board named `name`.
pub open spec fn has_name(bs: Seq<BoardView>, name: Seq<char>) -> bool {
    exists|i: int| 0 <= i < bs.len() && (#[trigger] bs[i]).name == name
}

/// The position of the board named `name`.
pub open spec fn index_of_name(bs: Seq<BoardView>, name: Seq<char>) -> int {
    choose|i: int| 0 <= i < bs.len() && (#[trigger] bs[i]).name == name
}

/// Has some board the id `id`.
pub open spec fn has_id(bs: Seq<BoardView>, id: int) -> bool {
    exists|i: int| 0 <= i < bs.len() && (#[trigger] bs[i]).id == id
}

/// The position of the board with id `id`.
pub open spec fn index_of_id(bs: Seq<BoardView>, id: int) -> int {
    choose|i: int| 0 <= i < bs.len() && (#[trigger] bs[i]).id == id
}

/// The store's invariant: names are non-empty and unique, ids are unique and
/// below the next id, which fits an `Id`.
pub open spec fn valid(s: StoreView) -> bool {
    &&& forall|i: int, j: int|
        0 <= i < j < s.boards.len() ==> (#[trigger] s.boards[i]).name != (#[trigger] s.boards[j]).name
            && s.boards[i].id != s.boards[j].id
    &&& forall|i: int|
        0 <= i < s.boards.len() ==> (#[trigger] s.boards[i]).name.len() > 0 && 0 <= s.boards[i].id
            < s.next_id
    &&& 1 <= s.next_id <= i32::MAX
}

/// What a lookup of `name` finds: the board's id and keys.
pub open spec fn find_spec(s: StoreView, name: Seq<char>) -> Option<(int, KeySet)> {
    if has_name(s.boards, name) {
        let b = s.boards[index_of_name(s.boards, name)];
        Some((b.id, b.keys))
    } else {
        None
    }
}

/// Creating a board: the name is trimmed; a blank name, a name in use, or
/// an exhausted id space fail and change nothing; otherwise the board is
/// added with no scores under the next id.
pub open spec fn create_spec(s: StoreView, name: Seq<char>, keys: KeySet) -> (
    StoreView,
    Result<int, ErrorView>,
) {
    let t = trim_of(name);
    if t.len() == 0 {
        (s, Err(ErrorView::InvalidBoardName(t)))
    } else if has_name(s.boards, t) {
        (s, Err(ErrorView::BoardAlreadyExists(t)))
    } else if s.next_id >= i32::MAX {
        (s, Err(ErrorView::StoreFailure))
    } else {
        (
            StoreView {
                boards: s.boards.push(BoardView { id: s.next_id, name: t, keys, scores: seq![] }),
                next_id: s.next_id + 1,
            },
            Ok(s.next_id),
        )
    }
}

/// Appending a score to the board with id `id`; with no such board the store
/// refuses and nothing changes.
pub open spec fn insert_score_spec(s: StoreView, id: int, e: EntryView) -> (
    StoreView,
    Result<(), ErrorView>,
) {
    if has_id(s.boards, id) {
        let i = index_of_id(s.boards, id);
        let b = s.boards[i];
        (
            StoreView {
                boards: s.boards.update(
                    i,
                    BoardView { id: b.id, name: b.name, keys: b.keys, scores: b.scores.push(e) },
                ),
                next_id: s.next_id,
            },
            Ok(()),
        )
    } else {
        (s, Err(ErrorView::StoreFailure))
    }
}

/// The scores of the board with id `id`, in the order they were submitted.
pub open spec fn list_scores_spec(s: StoreView, id: int) -> Option<Seq<EntryView>> {
    if has_id(s.boards, id) {
        Some(s.boards[index_of_id(s.boards, id)].scores)
    } else {
        None
    }
}

/// Removing the board with id `id`, and its scores with it.
pub open spec fn remove_board_spec(s: StoreView, id: int) -> StoreView {
    if has_id(s.boards, id) {
        StoreView { boards: s.boards.remove(index_of_id(s.boards, id)), next_id: s.next_id }
    } else {
        s
    }
}

/// Resolving `name` with the presented key.
pub open spec fn store_resolve_spec(s: StoreView, name: Seq<char>, key: Option<Seq<char>>) -> Result<
    (int, AuthorityLevel),
    ErrorView,
> {
    resolve_spec(name, find_spec(s, name), key)
}

/// Listing the scores of `name`, which needs at least `Read`.
pub open spec fn get_scores_spec(s: StoreView, name: Seq<char>, key: Option<Seq<char>>) -> Result<
    Seq<EntryView>,
    ErrorView,
> {
    match store_resolve_spec(s, name, key) {
        Err(e) => Err(e),
        Ok((id, auth)) => match check_auth_spec(auth, AuthorityLevel::Read) {
            Err(e) => Err(e),
            Ok(()) => match list_scores_spec(s, id) {
                Some(v) => Ok(v),
                None => Err(ErrorView::StoreFailure),
            },
        },
    }
}

/// Submitting a score to `name`, which needs at least `Submit`.
pub open spec fn submit_spec(s: StoreView, name: Seq<char>, key: Option<Seq<char>>, e: EntryView) -> (
    StoreView,
    Result<(), ErrorView>,
) {
    match store_resolve_spec(s, name, key) {
        Err(err) => (s, Err(err)),
        Ok((id, auth)) => match check_auth_spec(auth, AuthorityLevel::Submit) {
            Err(err) => (s, Err(err)),
            Ok(()) => insert_score_spec(s, id, e),
        },
    }
}

/// Deleting the board `name` with its scores, which needs `Admin`.
pub open spec fn delete_spec(s: StoreView, name: Seq<char>, key: Option<Seq<char>>) -> (
    StoreView,
    Result<(), ErrorView>,
) {
    match store_resolve_spec(s, name, key) {
        Err(err) => (s, Err(err)),
        Ok((id, auth)) => match check_auth_spec(auth, AuthorityLevel::Admin) {
            Err(err) => (s, Err(err)),
            Ok(()) => (remove_board_spec(s, id), Ok(())),
        },
    }
}

/// Views the result of a creation with given keys.
pub open spec fn id_result(r: Result<Id, RequestError>) -> Result<int, ErrorView> {
    match r {
        Ok(id) => Ok(id as int),
        Err(e) => Err(e@),
    }
}

/// Views the result of a listing.
pub open spec fn scores_result(r: Result<Vec<ScoreEntry>, RequestError>) -> Result<
    Seq<EntryView>,
    ErrorView,
> {
    match r {
        Ok(v) => Ok(entries_view(v@)),
        Err(e) => Err(e@),
    }
}

/// One board: its id, its trimmed name, its keys and its scores.
pub struct Board {
    id: Id,
    name: String,
    keys: BoardKeys,
    scores: Vec<ScoreEntry>,
}

impl View for Board {
    type V = BoardView;

    closed spec fn view(&self) -> BoardView {
        BoardView {
            id: self.id as int,
            name: self.name@,
            keys: self.keys@,
            scores: entries_view(self.scores@),
        }
    }
}

/// All boards, with their keys and scores.
pub struct Leaderboard {
    boards: Vec<Board>,
    next_id: Id,
}

impl View for Leaderboard {
    type V = StoreView;

    closed spec fn view(&self) -> StoreView {
        StoreView { boards: self.boards@.map_values(|b: Board| b@), next_id: self.next_id as int }
    }
}

impl Leaderboard {
    /// A store with no boards.
    pub fn new() -> (r: Self)
        ensures
            r@ == (StoreView { boards: seq![], next_id: 1 }),
            valid(r@),
    {
        let r = Leaderboard { boards: Vec::new(), next_id: 1 };
        assert(r@.boards =~= seq![]);
        r
    }

    fn position_of_name(&self, name: &String) -> (r: Option<usize>)
        requires
            valid(self@),
        ensures
            match r {
                Some(i) => has_name(self@.boards, name@) && i as int == index_of_name(
                    self@.boards,
                    name@,
                ) && i < self@.boards.len(),
                None => !has_name(self@.boards, name@),
            },
    {
        let ghost bs = self@.boards;
        let mut i: usize = 0;
        while i < self.boards.len()
            invariant
                bs == self@.boards,
                valid(self@),
                i <= self.boards@.len(),
                forall|k: int| 0 <= k < i ==> (#[trigger] bs[k]).name != name@,
            decreases self.boards@.len() - i,
        {
            assert(bs[i as int] == self.boards@[i as int]@);
            if self.boards[i].name == *name {
                assert(has_name(bs, name@));
                let ghost j = index_of_name(bs, name@);
                assert(bs[j].name == name@);
                assert(j == i as int);
                return Some(i);
            }
            i = i + 1;
        }
        None
    }

    fn position_of_id(&self, id: Id) -> (r: Option<usize>)
        requires
            valid(self@),
        ensures
            match r {
                Some(i) => has_id(self@.boards, id as int) && i as int == index_of_id(
                    self@.boards,
                    id as int,
                ) && i < self@.boards.len(),
                None => !has_id(self@.boards, id as int),
            },
    {
        let ghost bs = self@.boards;
        let mut i: usize = 0;
        while i < self.boards.len()
            invariant
                bs == self@.boards,
                valid(self@),
                i <= self.boards@.len(),
                forall|k: int| 0 <= k < i ==> (#[trigger] bs[k]).id != id as int,
            decreases self.boards@.len() - i,
        {
            assert(bs[i as int] == self.boards@[i as int]@);
            if self.boards[i].id == id {
                assert(has_id(bs, id as int));
                let ghost j = index_of_id(bs, id as int);
                assert(bs[j].id == id as int);
                assert(j == i as int);
                return Some(i);
            }
            i = i + 1;
        }
        None
    }

    /// Looks a board up by its exact name: its id and keys.
    pub fn find_board(&self, name: &String) -> (r: Option<(Id, &BoardKeys)>)
        requires
            valid(self@),
        ensures
            found_view(r) == find_spec(self@, name@),
    {
        match self.position_of_name(name) {
            None => None,
            Some(i) => {
                assert(self@.boards[i as int] == self.boards@[i as int]@);
                Some((self.boards[i].id, &self.boards[i].keys))
            },
        }
    }

    /// Resolves the board `name` to its id and the authority of `key`.
    pub fn resolve(&self, name: &String, key: &Option<ApiKey>) -> (r: Result<
        (Id, AuthorityLevel),
        RequestError,
    >)
        requires
            valid(self@),
        ensures
            resolved_view(r) == store_resolve_spec(self@, name@, presented_view(*key)),
    {
        let found = self.find_board(name);
        resolve_board(name, found, key)
    }
    /// Creates a board named `name` (trimmed) holding `keys`, and returns its
    /// id.
    pub fn create_board_with_keys(&mut self, name: String, keys: BoardKeys) -> (r: Result<
        Id,
        RequestError,
    >)
        requires
            valid(old(self)@),
        ensures
            valid(final(self)@),
            (final(self)@, id_result(r)) == create_spec(old(self)@, name@, keys@),
            blank(name@) <==> r is Err && r->Err_0@ == ErrorView::InvalidBoardName(trim_of(name@)),
    {
        let ghost name_v = name@;
        let t = match validate_board_name(name) {
            Ok(t) => t,
            Err(e) => {
                return Err(e);
            },
        };
        if self.position_of_name(&t).is_some() {
            return Err(RequestError::BoardAlreadyExists(t));
        }
        if self.next_id == i32::MAX {
            return Err(RequestError::Sql(String::from_str("no board id is left")));
        }
        let id = self.next_id;
        let ghost old_v = self@;
        let board = Board { id, name: t, keys, scores: Vec::new() };
        assert(board@.scores =~= seq![]);
        self.boards.push(board);
        self.next_id = id + 1;
        assert(self@.boards =~= old_v.boards.push(board@));
        Ok(id)
    }

    /// Creates a board named `name` (trimmed) with fresh random keys, and
    /// returns the keys.
    pub fn create_board(&mut self, name: String) -> (r: Result<BoardKeys, RequestError>)
        requires
            valid(old(self)@),
        ensures
            valid(final(self)@),
            match r {
                Ok(k) => fresh_keys(k@) && create_spec(old(self)@, name@, k@).0 == final(self)@
                    && create_spec(old(self)@, name@, k@).1 is Ok,
                Err(e) => final(self)@ == old(self)@ && forall|k: KeySet| #[trigger]
                    create_spec(old(self)@, name@, k) == (old(self)@, Err::<int, ErrorView>(e@)),
            },
            blank(name@) <==> r is Err && r->Err_0@ == ErrorView::InvalidBoardName(trim_of(name@)),
    {
        let keys = BoardKeys::generate();
        match self.create_board_with_keys(name, keys.clone()) {
            Ok(_) => Ok(keys),
            Err(e) => Err(e),
        }
    }

    /// Appends `entry` to the scores of the board with id `board_id`; the
    /// store refuses an id that no board has.
    pub fn insert_score(&mut self, board_id: Id, entry: ScoreEntry) -> (r: Result<(), RequestError>)
        requires
            valid(old(self)@),
        ensures
            valid(final(self)@),
            (final(self)@, unit_result(r)) == insert_score_spec(old(self)@, board_id as int, entry@),
    {
        match self.position_of_id(board_id) {
            None => Err(RequestError::Sql(String::from_str("no board has this id"))),
            Some(i) => {
                let ghost old_v = self@;
                let ghost e_v = entry@;
                let mut b = self.boards.remove(i);
                let ghost old_scores = b.scores@;
                b.scores.push(entry);
                assert(entries_view(b.scores@) =~= entries_view(old_scores).push(e_v));
                self.boards.insert(i, b);
                assert(self@.boards =~= old_v.boards.update(
                    i as int,
                    BoardView {
                        id: old_v.boards[i as int].id,
                        name: old_v.boards[i as int].name,
                        keys: old_v.boards[i as int].keys,
                        scores: old_v.boards[i as int].scores.push(e_v),
                    },
                ));
                Ok(())
            },
        }
    }

    /// The scores of the board with id `board_id`, in submission order.
    pub fn list_scores(&self, board_id: Id) -> (r: Option<Vec<ScoreEntry>>)
        requires
            valid(self@),
        ensures
            match r {
                Some(v) => list_scores_spec(self@, board_id as int) == Some(entries_view(v@)),
                None => list_scores_spec(self@, board_id as int) is None,
            },
    {
        match self.position_of_id(board_id) {
            None => None,
            Some(i) => {
                assert(self@.boards[i as int] == self.boards@[i as int]@);
                Some(clone_entries(&self.boards[i].scores))
            },
        }
    }

    /// Removes the board with id `board_id` together with all its scores;
    /// says whether there was one.
    pub fn remove_board(&mut self, board_id: Id) -> (r: bool)
        requires
            valid(old(self)@),
        ensures
            valid(final(self)@),
            final(self)@ == remove_board_spec(old(self)@, board_id as int),
            r == has_id(old(self)@.boards, board_id as int),
    {
        match self.position_of_id(board_id) {
            None => false,
            Some(i) => {
                let ghost old_v = self@;
                let _gone = self.boards.remove(i);
                assert(self@.boards =~= old_v.boards.remove(i as int));
                assert(valid(self@)) by {
                    let bs = self@.boards;
                    assert forall|a: int, b: int| 0 <= a < b < bs.len() implies (#[trigger] bs[a]).name
                        != (#[trigger] bs[b]).name && bs[a].id != bs[b].id by {
                        let a0 = if a < i { a } else { a + 1 };
                        let b0 = if b < i { b } else { b + 1 };
                        assert(bs[a] == old_v.boards[a0]);
                        assert(bs[b] == old_v.boards[b0]);
                    }
                    assert forall|a: int| 0 <= a < bs.len() implies (#[trigger] bs[a]).name.len() > 0
                        && 0 <= bs[a].id < self@.next_id by {
                        let a0 = if a < i { a } else { a + 1 };
                        assert(bs[a] == old_v.boards[a0]);
                    }
                }
                true
            },
        }
    }

    /// The scores of the board `name`, which needs a key of at least `Read`.
    pub fn get_scores(&self, name: &String, key: &Option<ApiKey>) -> (r: Result<
        Vec<ScoreEntry>,
        RequestError,
    >)
        requires
            valid(self@),
        ensures
            scores_result(r) == get_scores_spec(self@, name@, presented_view(*key)),
    {
        let (id, auth) = match self.resolve(name, key) {
            Ok(found) => found,
            Err(e) => {
                return Err(e);
            },
        };
        match check_auth(auth, AuthorityLevel::Read) {
            Ok(()) => {},
            Err(e) => {
                return Err(e);
            },
        }
        match self.list_scores(id) {
            Some(v) => Ok(v),
            None => Err(RequestError::Sql(String::from_str("the board has no scores table"))),
        }
    }

    /// Appends `entry` to the board `name`, which needs a key of at least
    /// `Submit`.
    pub fn submit_score(&mut self, name: &String, key: &Option<ApiKey>, entry: ScoreEntry) -> (r:
        Result<(), RequestError>)
        requires
            valid(old(self)@),
        ensures
            valid(final(self)@),
            (final(self)@, unit_result(r)) == submit_spec(
                old(self)@,
                name@,
                presented_view(*key),
                entry@,
            ),
    {
        let (id, auth) = match self.resolve(name, key) {
            Ok(found) => found,
            Err(e) => {
                return Err(e);
            },
        };
        match check_auth(auth, AuthorityLevel::Submit) {
            Ok(()) => {},
            Err(e) => {
                return Err(e);
            },
        }
        self.insert_score(id, entry)
    }

    /// Deletes the board `name` and all its scores, which needs the admin key.
    pub fn delete_board(&mut self, name: &String, key: &Option<ApiKey>) -> (r: Result<(), RequestError>)
        requires
            valid(old(self)@),
        ensures
            valid(final(self)@),
            (final(self)@, unit_result(r)) == delete_spec(old(self)@, name@, presented_view(*key)),
    {
        let (id, auth) = match self.resolve(name, key) {
            Ok(found) => found,
            Err(e) => {
                return Err(e);
            },
        };
        match check_auth(auth, AuthorityLevel::Admin) {
            Ok(()) => {},
            Err(e) => {
                return Err(e);
            },
        }
        self.remove_board(id);
        Ok(())
    }
}

} // verus!
