use vstd::prelude::*;
use crate::errors::{GameError, ServiceError, ServiceErrorKind};
use crate::messages::GameStatus;
use crate::player::User;
use crate::text::{append_str_text, same_text};

verus! {

/// A user logged in to the lobby: the id it is reached by, its profile, and whether it
/// is free to be invited to a game.
#[derive(Debug)]
pub struct LobbyEntry {
    pub user_id: String,
    pub profile: User,
    pub status: GameStatus,
}

/// What the lobby holds of one user.
pub struct LobbyEntryModel {
    pub user_id: Seq<char>,
    pub profile: User,
    pub status: GameStatus,
}

/// What an entry holds.
pub open spec fn entry_model(e: LobbyEntry) -> LobbyEntryModel {
    LobbyEntryModel { user_id: e.user_id@, profile: e.profile, status: e.status }
}

impl Clone for LobbyEntry {
    /// A copy of the entry.
    fn clone(&self) -> (res: LobbyEntry)
        ensures
            entry_model(res) == entry_model(*self),
    {
        LobbyEntry { user_id: self.user_id.clone(), profile: self.profile.clone(), status: self.status }
    }
}

/// Whether some entry of the lobby has the id.
pub open spec fn has_user(s: Seq<LobbyEntryModel>, id: Seq<char>) -> bool {
    exists|i: int| 0 <= i < s.len() && (#[trigger] s[i]).user_id == id
}

/// The entries without those of one id, in their order.
pub open spec fn without_user(s: Seq<LobbyEntryModel>, id: Seq<char>) -> Seq<LobbyEntryModel>
    decreases s.len(),
{
    if s.len() == 0 {
        s
    } else {
        let rest = without_user(s.drop_last(), id);
        if s.last().user_id == id {
            rest
        } else {
            rest.push(s.last())
        }
    }
}

/// The entries after a user logs in: any earlier entry of the id goes, and the user
/// comes last, free to play.
pub open spec fn with_user(s: Seq<LobbyEntryModel>, id: Seq<char>, profile: User) -> Seq<LobbyEntryModel> {
    without_user(s, id).push(LobbyEntryModel { user_id: id, profile, status: GameStatus::Available })
}

/// The entries with the status of the id's entries set.
pub open spec fn with_status(s: Seq<LobbyEntryModel>, id: Seq<char>, status: GameStatus) -> Seq<LobbyEntryModel> {
    Seq::new(
        s.len(),
        |i: int|
            if s[i].user_id == id {
                LobbyEntryModel { user_id: s[i].user_id, profile: s[i].profile, status }
            } else {
                s[i]
            },
    )
}

/// The profiles of the users free to play, in lobby order.
pub open spec fn available_profiles(s: Seq<LobbyEntryModel>) -> Seq<User>
    decreases s.len(),
{
    if s.len() == 0 {
        Seq::empty()
    } else {
        let rest = available_profiles(s.drop_last());
        if s.last().status == GameStatus::Available {
            rest.push(s.last().profile)
        } else {
            rest
        }
    }
}

/// The ids, in their order, that no entry of the lobby has.
pub open spec fn missing_users(s: Seq<LobbyEntryModel>, ids: Seq<Seq<char>>) -> Seq<Seq<char>>
    decreases ids.len(),
{
    if ids.len() == 0 {
        Seq::empty()
    } else {
        let rest = missing_users(s, ids.drop_last());
        if has_user(s, ids.last()) {
            rest
        } else {
            rest.push(ids.last())
        }
    }
}

/// No id has two entries.
pub open spec fn ids_distinct(s: Seq<LobbyEntryModel>) -> bool {
    forall|i: int, j: int| 0 <= i < j < s.len() ==> (#[trigger] s[i]).user_id != (#[trigger] s[j]).user_id
}

/// The message of the error that a message could not be delivered to `id`.
pub open spec fn not_in_list_message(id: Seq<char>) -> Seq<char> {
    "id "@ + id + " not in list"@
}

/// The users logged in and waiting for messages, in the order they came.
#[derive(Debug)]
pub struct Lobby {
    entries: Vec<LobbyEntry>,
}

impl View for Lobby {
    type V = Seq<LobbyEntryModel>;

    closed spec fn view(&self) -> Seq<LobbyEntryModel> {
        self.entries@.map_values(|e: LobbyEntry| entry_model(e))
    }
}

impl Lobby {
    /// An empty lobby.
    pub fn new() -> (res: Lobby)
        ensures
            res@ == Seq::<LobbyEntryModel>::empty(),
    {
        let res = Lobby { entries: Vec::new() };
        assert(res@ =~= Seq::<LobbyEntryModel>::empty());
        res
    }

    /// Whether a user is logged in.
    pub fn contains(&self, user_id: &str) -> (res: bool)
        ensures
            res == has_user(self@, user_id@),
    {
        let mut i: usize = 0;
        while i < self.entries.len()
            invariant
                i <= self.entries@.len(),
                self@.len() == self.entries@.len(),
                forall|k: int| 0 <= k < i ==> (#[trigger] self@[k]).user_id != user_id@,
            decreases self.entries.len() - i,
        {
            assert(self@[i as int] == entry_model(self.entries@[i as int]));
            if same_text(self.entries[i].user_id.as_str(), user_id) {
                assert(self@[i as int].user_id == user_id@);
                return true;
            }
            i = i + 1;
        }
        false
    }

    /// Takes out every entry of the id.
    fn drop_user(&mut self, user_id: &str)
        ensures
            final(self)@ == without_user(old(self)@, user_id@),
    {
        let ghost before = self@;
        let mut kept: Vec<LobbyEntry> = Vec::new();
        let mut i: usize = 0;
        while i < self.entries.len()
            invariant
                i <= self.entries@.len(),
                self@ == before,
                before.len() == self.entries@.len(),
                kept@.map_values(|e: LobbyEntry| entry_model(e)) == without_user(before.take(i as int), user_id@),
            decreases self.entries.len() - i,
        {
            assert(before.take(i + 1).drop_last() =~= before.take(i as int));
            assert(before[i as int] == entry_model(self.entries@[i as int]));
            if !same_text(self.entries[i].user_id.as_str(), user_id) {
                let e = self.entries[i].clone();
                kept.push(e);
                assert(kept@.map_values(|e: LobbyEntry| entry_model(e)) =~= without_user(before.take(i as int), user_id@).push(before[i as int]));
            }
            i = i + 1;
        }
        assert(before.take(before.len() as int) =~= before);
        self.entries = kept;
    }

    /// Logs a user in, free to play; a user already logged in is logged in afresh.
    /// Always succeeds.
    pub fn add_user(&mut self, user_id: &str, profile: &User) -> (res: Result<(), ServiceError>)
        ensures
            res is Ok,
            final(self)@ == with_user(old(self)@, user_id@, *profile),
    {
        self.drop_user(user_id);
        let ghost mid = self.entries@;
        let entry = LobbyEntry { user_id: String::from_str(user_id), profile: profile.clone(), status: GameStatus::Available };
        self.entries.push(entry);
        assert(self@ =~= with_user(old(self)@, user_id@, *profile)) by {
            assert(self.entries@.drop_last() == mid);
        }
        Ok(())
    }

    /// Logs a user out. Refused with a not-found error, and nothing changes, when the user
    /// is not logged in.
    pub fn remove_user(&mut self, user_id: &str) -> (res: Result<(), ServiceError>)
        ensures
            res is Ok <==> has_user(old(self)@, user_id@),
            res is Ok ==> final(self)@ == without_user(old(self)@, user_id@),
            res matches Err(e) ==> e.kind == ServiceErrorKind::NotFound && e.message@ == "id does not exist"@ + ": "@ + user_id@
                && final(self)@ == old(self)@,
    {
        if !self.contains(user_id) {
            return Err(ServiceError::new_not_found("id does not exist", user_id));
        }
        self.drop_user(user_id);
        Ok(())
    }

    /// Sets the status of a logged-in user. Refused with `BadId`, and nothing changes,
    /// when the user is not logged in.
    pub fn set_status(&mut self, user_id: &str, status: GameStatus) -> (res: Result<(), GameError>)
        ensures
            res is Ok <==> has_user(old(self)@, user_id@),
            res is Ok ==> final(self)@ == with_status(old(self)@, user_id@, status),
            res matches Err(e) ==> e matches GameError::BadId(m) && m@ == user_id@ + " does not exist"@
                && final(self)@ == old(self)@,
    {
        if !self.contains(user_id) {
            let mut m = String::from_str(user_id);
            append_str_text(&mut m, " does not exist");
            return Err(GameError::BadId(m));
        }
        let ghost before = self@;
        let mut i: usize = 0;
        while i < self.entries.len()
            invariant
                i <= self.entries@.len(),
                before.len() == self.entries@.len(),
                forall|k: int| 0 <= k < i ==> #[trigger] self@[k] == with_status(before, user_id@, status)[k],
                forall|k: int| i <= k < before.len() ==> #[trigger] self@[k] == before[k],
            decreases self.entries.len() - i,
        {
            assert(self@[i as int] == entry_model(self.entries@[i as int]));
            let ghost old_view = self@;
            if same_text(self.entries[i].user_id.as_str(), user_id) {
                let ghost old_entries = self.entries@;
                let mut e = self.entries.remove(i);
                e.status = status;
                let ghost new_e = e;
                self.entries.insert(i, e);
                assert(self.entries@ =~= old_entries.update(i as int, new_e));
                assert(self@ =~= old_view.update(i as int, entry_model(new_e)));
            }
            assert(self@[i as int] == with_status(before, user_id@, status)[i as int]);
            i = i + 1;
        }
        assert(self@ =~= with_status(before, user_id@, status));
        Ok(())
    }

    /// The profiles of the users free to play, in lobby order.
    pub fn get_available(&self) -> (res: Vec<User>)
        ensures
            res@ == available_profiles(self@),
    {
        let mut res: Vec<User> = Vec::new();
        let mut i: usize = 0;
        while i < self.entries.len()
            invariant
                i <= self.entries@.len(),
                self@.len() == self.entries@.len(),
                res@ == available_profiles(self@.take(i as int)),
            decreases self.entries.len() - i,
        {
            assert(self@.take(i + 1).drop_last() =~= self@.take(i as int));
            assert(self@[i as int] == entry_model(self.entries@[i as int]));
            if self.entries[i].status == GameStatus::Available {
                res.push(self.entries[i].profile.clone());
            }
            i = i + 1;
        }
        assert(self@.take(self@.len() as int) =~= self@);
        res
    }

    /// Checks that a user can wait for messages: refused with a not-found error when it
    /// is not logged in.
    pub fn wait_target(&self, user_id: &str) -> (res: Result<(), ServiceError>)
        ensures
            res is Ok <==> has_user(self@, user_id@),
            res matches Err(e) ==> e.kind == ServiceErrorKind::NotFound && e.message@ == "in long poller"@ + ": "@ + user_id@,
    {
        if self.contains(user_id) {
            Ok(())
        } else {
            Err(ServiceError::new_not_found("in long poller", user_id))
        }
    }

    /// The recipients of a message that are not logged in, in the order given, each with
    /// the error that the message could not be delivered to it.
    pub fn send_errors(&self, to_users: &Vec<String>) -> (res: Vec<(String, GameError)>)
        ensures
            res@.len() == missing_users(self@, to_users@.map_values(|t: String| t@)).len(),
            forall|k: int| 0 <= k < res@.len() ==> {
                let id = missing_users(self@, to_users@.map_values(|t: String| t@))[k];
                &&& (#[trigger] res@[k]).0@ == id
                &&& res@[k].1 matches GameError::BadId(m) && m@ == not_in_list_message(id)
            },
    {
        let ghost ids = to_users@.map_values(|t: String| t@);
        let mut res: Vec<(String, GameError)> = Vec::new();
        let mut i: usize = 0;
        while i < to_users.len()
            invariant
                i <= to_users@.len(),
                ids == to_users@.map_values(|t: String| t@),
                res@.len() == missing_users(self@, ids.take(i as int)).len(),
                forall|k: int| 0 <= k < res@.len() ==> {
                    let id = missing_users(self@, ids.take(i as int))[k];
                    &&& (#[trigger] res@[k]).0@ == id
                    &&& res@[k].1 matches GameError::BadId(m) && m@ == not_in_list_message(id)
                },
            decreases to_users.len() - i,
        {
            assert(ids.take(i + 1).drop_last() =~= ids.take(i as int));
            assert(ids.take(i + 1).last() == to_users@[i as int]@);
            if !self.contains(to_users[i].as_str()) {
                let mut m = String::from_str("id ");
                append_str_text(&mut m, to_users[i].as_str());
                append_str_text(&mut m, " not in list");
                res.push((to_users[i].clone(), GameError::BadId(m)));
            }
            i = i + 1;
        }
        assert(ids.take(ids.len() as int) =~= ids);
        res
    }
}

/// A user just logged in is in the lobby, free to play, with the profile given, and
/// appears exactly once.
pub proof fn lemma_added_user_is_available(s: Seq<LobbyEntryModel>, id: Seq<char>, profile: User)
    ensures
        has_user(with_user(s, id, profile), id),
        available_profiles(with_user(s, id, profile)).last() == profile,
        ids_distinct(s) ==> ids_distinct(with_user(s, id, profile)),
{
    let t = with_user(s, id, profile);
    assert(t[t.len() - 1].user_id == id);
    lemma_without_user_subset(s, id);
    assert(t.drop_last() =~= without_user(s, id));
    if ids_distinct(s) {
        lemma_without_user_keeps_distinct(s, id);
        assert forall|i: int, j: int| 0 <= i < j < t.len() implies (#[trigger] t[i]).user_id != (#[trigger] t[j]).user_id by {
            if j == t.len() - 1 {
                assert(t[i] == without_user(s, id)[i]);
            } else {
                assert(t[i] == without_user(s, id)[i] && t[j] == without_user(s, id)[j]);
            }
        }
    }
}

/// Logging out a user that is logged in succeeds, and then the user is gone.
pub proof fn lemma_removed_user_is_gone(s: Seq<LobbyEntryModel>, id: Seq<char>)
    ensures
        !has_user(without_user(s, id), id),
{
    lemma_without_user_subset(s, id);
}

/// A user whose status is set to free to play is among the profiles listed as
/// available.
pub proof fn lemma_set_available_is_listed(s: Seq<LobbyEntryModel>, id: Seq<char>, i: int)
    requires
        0 <= i < s.len(),
        s[i].user_id == id,
    ensures
        available_profiles(with_status(s, id, GameStatus::Available)).contains(s[i].profile),
{
    let t = with_status(s, id, GameStatus::Available);
    assert(t[i].profile == s[i].profile && t[i].status == GameStatus::Available);
    lemma_available_lists(t, i);
}

/// Every entry free to play has its profile among the available ones.
proof fn lemma_available_lists(s: Seq<LobbyEntryModel>, i: int)
    requires
        0 <= i < s.len(),
        s[i].status == GameStatus::Available,
    ensures
        available_profiles(s).contains(s[i].profile),
    decreases s.len(),
{
    let rest = available_profiles(s.drop_last());
    if i == s.len() - 1 {
        assert(available_profiles(s)[rest.len() as int] == s[i].profile);
    } else {
        assert(s.drop_last()[i] == s[i]);
        lemma_available_lists(s.drop_last(), i);
        let j = choose|j: int| 0 <= j < rest.len() && rest[j] == s[i].profile;
        assert(available_profiles(s)[j] == s[i].profile);
    }
}

/// What `without_user` keeps: entries of `s`, none of them of the id, and every entry
/// of another id.
proof fn lemma_without_user_subset(s: Seq<LobbyEntryModel>, id: Seq<char>)
    ensures
        forall|k: int| 0 <= k < without_user(s, id).len() ==> #[trigger] without_user(s, id)[k].user_id != id,
        forall|k: int| 0 <= k < without_user(s, id).len() ==> s.contains(#[trigger] without_user(s, id)[k]),
    decreases s.len(),
{
    if s.len() > 0 {
        lemma_without_user_subset(s.drop_last(), id);
        let rest = without_user(s.drop_last(), id);
        assert forall|k: int| 0 <= k < without_user(s, id).len() implies s.contains(#[trigger] without_user(s, id)[k]) by {
            if k < rest.len() {
                assert(s.drop_last().contains(rest[k]));
                let j = choose|j: int| 0 <= j < s.drop_last().len() && s.drop_last()[j] == rest[k];
                assert(s[j] == rest[k]);
            } else {
                assert(s[s.len() - 1] == without_user(s, id)[k]);
            }
        }
    }
}

/// `without_user` keeps the relative order of the entries it keeps, so distinct ids
/// stay distinct.
proof fn lemma_without_user_keeps_distinct(s: Seq<LobbyEntryModel>, id: Seq<char>)
    requires
        ids_distinct(s),
    ensures
        ids_distinct(without_user(s, id)),
    decreases s.len(),
{
    lemma_without_user_subset(s, id);
    if s.len() > 0 {
        assert(ids_distinct(s.drop_last()));
        lemma_without_user_keeps_distinct(s.drop_last(), id);
        let rest = without_user(s.drop_last(), id);
        lemma_without_user_subset(s.drop_last(), id);
        if s.last().user_id != id {
            assert forall|k: int| 0 <= k < rest.len() implies (#[trigger] rest[k]).user_id != s.last().user_id by {
                assert(s.drop_last().contains(rest[k]));
                let j = choose|j: int| 0 <= j < s.drop_last().len() && s.drop_last()[j] == rest[k];
                assert(s[j] == rest[k]);
            }
        }
    }
}

} // verus!

verus! {

/// The users listed as available are exactly those whose status is Available: every
/// profile listed is that of an entry free to play, in lobby order, and every entry free to
/// play has its profile listed; a hidden or playing user is never listed on its own
/// account.
pub proof fn lemma_available_are_free_to_play(s: Seq<LobbyEntryModel>)
    ensures
        forall|k: int| 0 <= k < available_profiles(s).len() ==> exists|j: int|
            0 <= j < s.len() && s[j].status == GameStatus::Available
                && #[trigger] available_profiles(s)[k] == s[j].profile,
        forall|j: int| 0 <= j < s.len() && s[j].status == GameStatus::Available
            ==> available_profiles(s).contains(#[trigger] s[j].profile),
        available_profiles(s).len() <= s.len(),
    decreases s.len(),
{
    if s.len() > 0 {
        let rest = s.drop_last();
        lemma_available_are_free_to_play(rest);
        let ar = available_profiles(rest);
        let a = available_profiles(s);
        assert forall|k: int| 0 <= k < a.len() implies exists|j: int|
            0 <= j < s.len() && s[j].status == GameStatus::Available && #[trigger] a[k] == s[j].profile by {
            if k < ar.len() {
                assert(a[k] == ar[k]);
                let j = choose|j: int| 0 <= j < rest.len() && rest[j].status == GameStatus::Available
                    && ar[k] == rest[j].profile;
                assert(s[j] == rest[j]);
            } else {
                assert(s[s.len() - 1].status == GameStatus::Available);
            }
        }
        assert forall|j: int| 0 <= j < s.len() && s[j].status == GameStatus::Available
            implies a.contains(#[trigger] s[j].profile) by {
            lemma_available_lists(s, j);
        }
    }
}

} // verus!
