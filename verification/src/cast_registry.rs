//! The sharing sessions that clients of the bus have.

use vstd::prelude::*;
use vstd::string::*;

use crate::text::{decimal, lemma_decimal_digits, text_eq, to_decimal};

verus! {

/// How many sessions there are at most.
pub const MAX_SESSIONS: usize = 32;

/// How many sessions a client has at most.
pub const MAX_SESSIONS_PER_CLIENT: usize = 8;

/// A session of a client, by its path.
pub struct Reservation {
    pub owner: String,
    pub path: String,
}

/// A client and a path.
pub type ReservationView = (Seq<char>, Seq<char>);

/// What the reservations are.
pub open spec fn reservation_views(s: Seq<Reservation>) -> Seq<ReservationView> {
    s.map_values(|r: Reservation| (r.owner@, r.path@))
}

/// The sessions of all clients.
pub struct SessionRegistry {
    pub entries: Vec<Reservation>,
}

/// How many of the sessions a client has.
pub open spec fn owned_by(entries: Seq<ReservationView>, owner: Seq<char>) -> nat
    decreases entries.len(),
{
    if entries.len() == 0 {
        0
    } else {
        owned_by(entries.drop_last(), owner) + if entries.last().0 == owner {
            1nat
        } else {
            0
        }
    }
}

/// It is another session.
pub open spec fn not_session(owner: Seq<char>, path: Seq<char>) -> spec_fn(ReservationView) -> bool {
    |r: ReservationView| r != (owner, path)
}

/// It belongs to another client.
pub open spec fn not_owned(owner: Seq<char>) -> spec_fn(ReservationView) -> bool {
    |r: ReservationView| r.0 != owner
}

/// The paths of a client's sessions.
pub open spec fn paths_of(entries: Seq<ReservationView>, owner: Seq<char>) -> Seq<Seq<char>>
    decreases entries.len(),
{
    if entries.len() == 0 {
        Seq::empty()
    } else {
        let before = paths_of(entries.drop_last(), owner);
        if entries.last().0 == owner {
            before.push(entries.last().1)
        } else {
            before
        }
    }
}

/// What the texts say.
pub open spec fn text_views(s: Seq<String>) -> Seq<Seq<char>> {
    s.map_values(|t: String| t@)
}

impl SessionRegistry {
    pub open spec fn views(&self) -> Seq<ReservationView> {
        reservation_views(self.entries@)
    }

    /// No session is listed twice, and neither all clients nor one of them has too
    /// many.
    pub open spec fn wf(&self) -> bool {
        &&& self.views().no_duplicates()
        &&& self.views().len() <= MAX_SESSIONS
        &&& forall|owner: Seq<char>| #[trigger]
            owned_by(self.views(), owner) <= MAX_SESSIONS_PER_CLIENT
    }

    pub fn new() -> (r: Self)
        ensures
            r.wf(),
            r.views() == Seq::<ReservationView>::empty(),
    {
        let r = SessionRegistry { entries: Vec::new() };
        assert(r.views() =~= Seq::<ReservationView>::empty());
        r
    }

    fn survey(&self, owner: &str, path: &str) -> (r: (usize, bool))
        requires
            self.wf(),
        ensures
            r.0 == owned_by(self.views(), owner@),
            r.1 == self.views().contains((owner@, path@)),
    {
        let ghost all = self.views();
        let mut count: usize = 0;
        let mut found: bool = false;
        let mut i: usize = 0;
        assert(all.take(0) =~= Seq::<ReservationView>::empty());
        while i < self.entries.len()
            invariant
                all == self.views(),
                i <= all.len(),
                all.len() <= MAX_SESSIONS,
                count <= i,
                count == owned_by(all.take(i as int), owner@),
                found == exists|j: int| 0 <= j < i && #[trigger] all[j] == (owner@, path@),
            decreases all.len() - i,
        {
            assert(all.take(i + 1).drop_last() =~= all.take(i as int));
            assert(all.take(i + 1).last() == all[i as int]);
            assert(all[i as int] == (self.entries@[i as int].owner@, self.entries@[i as int].path@));
            if text_eq(self.entries[i].owner.as_str(), owner) {
                count = count + 1;
                if text_eq(self.entries[i].path.as_str(), path) {
                    found = true;
                }
            }
            i += 1;
        }
        assert(all.take(all.len() as int) =~= all);
        (count, found)
    }

    /// Reserves a session for a client, unless there are too many, of all clients or
    /// of this one. Gives whether it did.
    pub fn reserve(&mut self, owner: &str, path: &str) -> (r: bool)
        requires
            old(self).wf(),
        ensures
            final(self).wf(),
            r == (old(self).views().len() < MAX_SESSIONS && owned_by(old(self).views(), owner@)
                < MAX_SESSIONS_PER_CLIENT),
            final(self).views() == if r && !old(self).views().contains((owner@, path@)) {
                old(self).views().push((owner@, path@))
            } else {
                old(self).views()
            },
    {
        let ghost before = self.views();
        let (count, found): (usize, bool) = self.survey(owner, path);
        if self.entries.len() >= MAX_SESSIONS || count >= MAX_SESSIONS_PER_CLIENT {
            return false;
        }
        if !found {
            self.entries.push(Reservation { owner: owner.to_owned(), path: path.to_owned() });
            proof {
                let now = self.views();
                assert(now =~= before.push((owner@, path@)));
                assert(now.drop_last() =~= before);
                assert forall|o: Seq<char>| #[trigger] owned_by(now, o)
                    <= MAX_SESSIONS_PER_CLIENT by {
                    assert(owned_by(before, o) <= MAX_SESSIONS_PER_CLIENT);
                }
            }
        }
        true
    }

    /// Forgets a session.
    pub fn remove(&mut self, owner: &str, path: &str)
        requires
            old(self).wf(),
        ensures
            final(self).wf(),
            final(self).views() == old(self).views().filter(not_session(owner@, path@)),
    {
        let ghost before = self.views();
        let ghost pred = not_session(owner@, path@);
        let mut i: usize = 0;
        let ghost mut k: int = 0;
        proof {
            crate::seqs::lemma_filter_ends(before, pred);
            assert(self.views() =~= before.take(0).filter(pred) + before.skip(0));
        }
        while i < self.entries.len()
            invariant
                0 <= k <= before.len(),
                pred == not_session(owner@, path@),
                i == before.take(k).filter(pred).len(),
                self.views() == before.take(k).filter(pred) + before.skip(k),
            decreases before.len() - k,
        {
            let ghost now = self.views();
            proof {
                assert(now[i as int] == before.skip(k)[0]);
                assert(before.skip(k)[0] == before[k]);
                assert(before[k] == (self.entries@[i as int].owner@, self.entries@[i as int].path@));
                crate::seqs::lemma_filter_step(before, k, pred);
            }
            if text_eq(self.entries[i].owner.as_str(), owner) && text_eq(
                self.entries[i].path.as_str(),
                path,
            ) {
                let _ = self.entries.remove(i);
                assert(self.views() =~= now.remove(i as int));
                assert(self.views() =~= before.take(k + 1).filter(pred) + before.skip(k + 1));
            } else {
                assert(now =~= before.take(k + 1).filter(pred) + before.skip(k + 1));
                i += 1;
            }
            proof {
                k = k + 1;
            }
        }
        proof {
            assert(k == before.len());
            crate::seqs::lemma_filter_ends(before, pred);
            assert(self.views() =~= before.filter(pred));
            lemma_filtered_registry(before, pred);
            assert forall|o: Seq<char>| #[trigger] owned_by(self.views(), o)
                <= MAX_SESSIONS_PER_CLIENT by {
                lemma_filter_owns_less(before, pred, o);
                assert(owned_by(before, o) <= MAX_SESSIONS_PER_CLIENT);
            }
        }
    }

    /// Forgets all sessions of a client, and gives their paths.
    pub fn take_owner(&mut self, owner: &str) -> (r: Vec<String>)
        requires
            old(self).wf(),
        ensures
            final(self).wf(),
            final(self).views() == old(self).views().filter(not_owned(owner@)),
            text_views(r@) == paths_of(old(self).views(), owner@),
    {
        let ghost before = self.views();
        let ghost pred = not_owned(owner@);
        let mut out: Vec<String> = Vec::new();
        let mut i: usize = 0;
        let ghost mut k: int = 0;
        proof {
            crate::seqs::lemma_filter_ends(before, pred);
            assert(self.views() =~= before.take(0).filter(pred) + before.skip(0));
            assert(before.take(0) =~= Seq::<ReservationView>::empty());
            assert(text_views(out@) =~= Seq::<Seq<char>>::empty());
        }
        while i < self.entries.len()
            invariant
                0 <= k <= before.len(),
                pred == not_owned(owner@),
                i == before.take(k).filter(pred).len(),
                self.views() == before.take(k).filter(pred) + before.skip(k),
                text_views(out@) == paths_of(before.take(k), owner@),
            decreases before.len() - k,
        {
            let ghost now = self.views();
            proof {
                assert(now[i as int] == before.skip(k)[0]);
                assert(before.skip(k)[0] == before[k]);
                assert(before[k] == (self.entries@[i as int].owner@, self.entries@[i as int].path@));
                crate::seqs::lemma_filter_step(before, k, pred);
                assert(before.take(k + 1).drop_last() =~= before.take(k));
                assert(before.take(k + 1).last() == before[k]);
            }
            if text_eq(self.entries[i].owner.as_str(), owner) {
                let gone: Reservation = self.entries.remove(i);
                assert(self.views() =~= now.remove(i as int));
                assert(self.views() =~= before.take(k + 1).filter(pred) + before.skip(k + 1));
                let ghost sofar = out@;
                out.push(gone.path);
                assert(text_views(out@) =~= text_views(sofar).push(before[k].1));
            } else {
                assert(now =~= before.take(k + 1).filter(pred) + before.skip(k + 1));
                i += 1;
            }
            proof {
                k = k + 1;
            }
        }
        proof {
            assert(k == before.len());
            assert(before.take(k) =~= before);
            crate::seqs::lemma_filter_ends(before, pred);
            assert(self.views() =~= before.filter(pred));
            lemma_filtered_registry(before, pred);
            assert forall|o: Seq<char>| #[trigger] owned_by(self.views(), o)
                <= MAX_SESSIONS_PER_CLIENT by {
                lemma_filter_owns_less(before, pred, o);
                assert(owned_by(before, o) <= MAX_SESSIONS_PER_CLIENT);
            }
        }
        out
    }
}

proof fn lemma_filtered_registry(
    s: Seq<ReservationView>,
    pred: spec_fn(ReservationView) -> bool,
)
    requires
        s.no_duplicates(),
    ensures
        s.filter(pred).no_duplicates(),
        s.filter(pred).len() <= s.len(),
        forall|x: ReservationView| #[trigger] s.filter(pred).contains(x) ==> s.contains(x),
    decreases s.len(),
{
    reveal(Seq::filter);
    if s.len() > 0 {
        let rest = s.drop_last();
        lemma_filtered_registry(rest, pred);
        let kept = rest.filter(pred);
        assert forall|x: ReservationView| kept.contains(x) implies #[trigger] s.contains(x) && x
            != s.last() by {
            assert(rest.contains(x));
            let j = choose|j: int| 0 <= j < rest.len() && rest[j] == x;
            assert(s[j] == x);
            assert(s[s.len() - 1] == s.last());
        }
        if pred(s.last()) {
            assert(s[s.len() - 1] == s.last());
            let all = s.filter(pred);
            assert(all =~= kept.push(s.last()));
            assert forall|x: ReservationView| #[trigger] all.contains(x) implies s.contains(x) by {
                let j = choose|j: int| 0 <= j < all.len() && all[j] == x;
                if j < kept.len() {
                    assert(kept[j] == x);
                    assert(kept.contains(x));
                }
            }
            assert forall|i: int, j: int| 0 <= i < all.len() && 0 <= j < all.len() && i != j implies all[i]
                != all[j] by {
                if i < kept.len() && j < kept.len() {
                    assert(kept[i] != kept[j]);
                } else if i < kept.len() {
                    assert(kept.contains(kept[i]));
                } else if j < kept.len() {
                    assert(kept.contains(kept[j]));
                }
            }
        }
    }
}

proof fn lemma_filter_owns_less(
    s: Seq<ReservationView>,
    pred: spec_fn(ReservationView) -> bool,
    owner: Seq<char>,
)
    ensures
        owned_by(s.filter(pred), owner) <= owned_by(s, owner),
    decreases s.len(),
{
    reveal(Seq::filter);
    if s.len() > 0 {
        lemma_filter_owns_less(s.drop_last(), pred, owner);
        if pred(s.last()) {
            let kept = s.drop_last().filter(pred);
            assert(s.filter(pred).drop_last() =~= kept);
        }
    }
}

proof fn lemma_owned_is_paths(s: Seq<ReservationView>, owner: Seq<char>)
    ensures
        paths_of(s, owner).len() == owned_by(s, owner),
    decreases s.len(),
{
    if s.len() > 0 {
        lemma_owned_is_paths(s.drop_last(), owner);
    }
}

proof fn lemma_none_owned(s: Seq<ReservationView>, owner: Seq<char>)
    ensures
        owned_by(s.filter(not_owned(owner)), owner) == 0,
    decreases s.len(),
{
    reveal(Seq::filter);
    if s.len() > 0 {
        lemma_none_owned(s.drop_last(), owner);
        if not_owned(owner)(s.last()) {
            let kept = s.drop_last().filter(not_owned(owner));
            assert(s.filter(not_owned(owner)).drop_last() =~= kept);
        }
    }
}

/// A client that is gone has no sessions left, and as many paths came back as it had
/// sessions; a client that comes back starts anew.
pub proof fn law_taking_an_owner_frees_its_sessions(entries: Seq<ReservationView>, owner: Seq<char>)
    ensures
        owned_by(entries.filter(not_owned(owner)), owner) == 0,
        paths_of(entries, owner).len() == owned_by(entries, owner),
{
    lemma_none_owned(entries, owner);
    lemma_owned_is_paths(entries, owner);
}

/// A character of a path on the bus.
pub open spec fn path_char(c: char) -> bool {
    ||| 'a' <= c <= 'z'
    ||| 'A' <= c <= 'Z'
    ||| '0' <= c <= '9'
    ||| c == '_'
    ||| c == '/'
}

/// A path on the bus: it begins with a slash, has letters, digits and underscores
/// between slashes, and ends with a slash only if it is nothing else.
pub open spec fn valid_path(path: Seq<char>) -> bool {
    &&& path.len() > 0
    &&& path[0] == '/'
    &&& path.len() > 1 ==> path.last() != '/'
    &&& forall|i: int| 0 <= i < path.len() ==> path_char(#[trigger] path[i])
    &&& forall|i: int| 0 <= i < path.len() - 1 && #[trigger] path[i] == '/' ==> path[i + 1] != '/'
}

/// `zbus::zvariant::ObjectPath::try_from` on a `&str`: whether a text is a path on the
/// bus. It is accepted exactly as `valid_path` says.
#[verifier::external_body]
fn is_object_path(text: &str) -> (r: bool)
    ensures
        r == valid_path(text@),
{
    zbus::zvariant::ObjectPath::try_from(text).is_ok()
}

/// What numbered objects are called.
#[derive(Clone, Copy, Debug, PartialEq, Eq, Structural)]
pub enum ObjectKind {
    Session,
    Stream,
}

impl ObjectKind {
    /// What the paths of such objects begin with.
    pub open spec fn base(&self) -> Seq<char> {
        match self {
            ObjectKind::Session => "/org/gnome/Mutter/ScreenCast/Session/u"@,
            ObjectKind::Stream => "/org/gnome/Mutter/ScreenCast/Stream/u"@,
        }
    }
}

/// The path of a numbered object.
pub open spec fn object_path_of(kind: ObjectKind, id: nat) -> Seq<char> {
    kind.base() + decimal(id)
}

/// The path of every numbered object is one that the bus accepts.
pub proof fn law_object_paths_are_valid(kind: ObjectKind, id: nat)
    ensures
        valid_path(object_path_of(kind, id)),
{
    reveal_strlit("/org/gnome/Mutter/ScreenCast/Session/u");
    reveal_strlit("/org/gnome/Mutter/ScreenCast/Stream/u");
    lemma_decimal_digits(id);
    let base = kind.base();
    let path = object_path_of(kind, id);
    let n = base.len() as int;
    assert(base[n - 1] == 'u');
    assert forall|i: int| 0 <= i < path.len() implies path_char(#[trigger] path[i]) by {
        if i < n {
            assert(path[i] == base[i]);
        } else {
            assert(path[i] == decimal(id)[i - n]);
        }
    }
    assert forall|i: int| 0 <= i < path.len() - 1 && #[trigger] path[i] == '/' implies path[i + 1]
        != '/' by {
        if i < n - 1 {
            assert(path[i] == base[i] && path[i + 1] == base[i + 1]);
        } else {
            assert(path[i + 1] == decimal(id)[i + 1 - n]);
        }
    }
    assert(path.last() == decimal(id).last());
}

/// The path of a numbered object.
pub fn numbered_path(kind: ObjectKind, id: u64) -> (r: String)
    ensures
        r@ == object_path_of(kind, id as nat),
{
    let base: &str = match kind {
        ObjectKind::Session => "/org/gnome/Mutter/ScreenCast/Session/u",
        ObjectKind::Stream => "/org/gnome/Mutter/ScreenCast/Stream/u",
    };
    let mut path: String = base.to_owned();
    let number: String = to_decimal(id);
    path.append(number.as_str());
    path
}

/// What clients are told when a text is no path on the bus.
pub const INVALID_PATH: &'static str = "Invalid object path";

/// A text as a path on the bus.
pub fn checked_path(text: String) -> (r: Result<String, &'static str>)
    ensures
        match r {
            Ok(path) => valid_path(text@) && path@ == text@,
            Err(message) => !valid_path(text@) && message@ == INVALID_PATH@,
        },
{
    if is_object_path(text.as_str()) {
        Ok(text)
    } else {
        Err(INVALID_PATH)
    }
}

} // verus!
