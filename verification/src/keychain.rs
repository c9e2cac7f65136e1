//! Keychains: where private keys are kept, by service and user name.
use crate::identity::IdentityError;
use crate::logging::Scrubbed;
use crate::text;
use vstd::prelude::*;

verus! {

/// The service and the user name that an entry is kept under.
pub type Slot = (Seq<char>, Seq<char>);

/// What a keychain holds.
pub type Contents = Map<Slot, Seq<char>>;

/// A place that keeps passwords. What it holds is a map from service and user name.
pub trait KeychainBackend: Send + Sync {
    /// What the keychain holds.
    spec fn entries(&self) -> Contents;

    /// The keychain always does what it is asked. Of one that may fail this is false, and a
    /// failed call says nothing of what it holds at that slot.
    spec fn dependable(&self) -> bool;

    /// Keeps a password, in place of one that was there.
    fn set_password(&mut self, service: &str, username: &str, password: &str) -> (result: Result<
        (),
        IdentityError,
    >)
        ensures
            final(self).dependable() == old(self).dependable(),
            result is Ok ==> final(self).entries() == old(self).entries().insert(
                (service@, username@),
                password@,
            ),
            old(self).dependable() ==> result is Ok,
    ;

    /// The password that is kept, or `NotBootstrapped` where there is none.
    fn get_password(&self, service: &str, username: &str) -> (result: Result<
        String,
        IdentityError,
    >)
        ensures
            result matches Ok(password) ==> {
                &&& self.entries().dom().contains((service@, username@))
                &&& self.entries()[(service@, username@)] == password@
            },
            result matches Err(IdentityError::NotBootstrapped) ==> !self.entries().dom().contains(
                (service@, username@),
            ),
            self.dependable() && result is Err ==> result matches Err(
                IdentityError::NotBootstrapped,
            ),
    ;

    /// Forgets a password, if there is one.
    fn delete_password(&mut self, service: &str, username: &str) -> (result: Result<
        (),
        IdentityError,
    >)
        ensures
            final(self).dependable() == old(self).dependable(),
            result is Ok ==> final(self).entries() == old(self).entries().remove(
                (service@, username@),
            ),
            old(self).dependable() ==> result is Ok,
    ;

    /// Forgets everything, where the keychain can: by default it keeps what it holds.
    fn reset(&mut self)
        ensures
            final(self).dependable() == old(self).dependable(),
        default_ensures
            final(self).entries() == old(self).entries(),
    {
    }
}

/// `result` is what the keychain answers when it is asked for a password.
pub open spec fn answers<K: KeychainBackend>(
    keychain: &K,
    slot: Slot,
    result: Result<String, IdentityError>,
) -> bool {
    exists|service: &str, username: &str|
        service@ == slot.0 && username@ == slot.1 && #[trigger] call_ensures(
            K::get_password,
            (keychain, service, username),
            result,
        )
}

/// `result` is what the keychain answers, as it was before, when it is to keep a password.
pub open spec fn keeps<K: KeychainBackend>(
    before: K,
    slot: Slot,
    password: Seq<char>,
    result: Result<(), IdentityError>,
) -> bool {
    exists|keychain: &mut K, service: &str, username: &str, kept: &str|
        *keychain == before && service@ == slot.0 && username@ == slot.1 && kept@ == password
            && #[trigger] call_ensures(
            K::set_password,
            (keychain, service, username, kept),
            result,
        )
}

/// What comes of asking the operating system's keychain for a password.
pub enum Lookup {
    Found(String),
    NoEntry,
    Failed(String),
}

/// A password that is not there means that no identity has been bootstrapped; anything else that
/// went wrong is the keychain's fault.
pub fn lookup_result(lookup: Lookup) -> (result: Result<String, IdentityError>)
    ensures
        result == match lookup {
            Lookup::Found(password) => Ok(password),
            Lookup::NoEntry => Err(IdentityError::NotBootstrapped),
            Lookup::Failed(message) => Err(IdentityError::KeychainUnavailable(message)),
        },
{
    match lookup {
        Lookup::Found(password) => Ok(password),
        Lookup::NoEntry => Err(IdentityError::NotBootstrapped),
        Lookup::Failed(message) => Err(IdentityError::KeychainUnavailable(message)),
    }
}

/// What comes of asking the operating system's keychain to forget a password.
pub enum Removal {
    Removed,
    NoEntry,
    Failed(String),
}

/// A password that was not there counts as forgotten.
pub fn removal_result(removal: Removal) -> (result: Result<(), IdentityError>)
    ensures
        result == match removal {
            Removal::Removed | Removal::NoEntry => Ok(()),
            Removal::Failed(message) => Err(IdentityError::KeychainUnavailable(message)),
        },
{
    match removal {
        Removal::Removed => Ok(()),
        Removal::NoEntry => Ok(()),
        Removal::Failed(message) => Err(IdentityError::KeychainUnavailable(message)),
    }
}

/// A password with the service and the user name it is kept under.
pub struct Entry {
    pub service: String,
    pub username: String,
    pub password: Scrubbed<String>,
}

/// Where the entry is kept.
pub open spec fn slot_of(entry: Entry) -> Slot {
    (entry.service@, entry.username@)
}

/// What a list of entries holds; the last entry of a slot counts.
pub open spec fn entries_of(list: Seq<Entry>) -> Contents
    decreases list.len(),
{
    if list.len() == 0 {
        Map::empty()
    } else {
        entries_of(list.drop_last()).insert(slot_of(list.last()), list.last().password.0@)
    }
}

proof fn lemma_entry_removed(list: Seq<Entry>, i: int)
    requires
        0 <= i < list.len(),
    ensures
        entries_of(list.remove(i)).remove(slot_of(list[i])) == entries_of(list).remove(
            slot_of(list[i]),
        ),
    decreases list.len(),
{
    let slot = slot_of(list[i]);
    if i == list.len() - 1 {
        assert(list.remove(i) =~= list.drop_last());
        assert(entries_of(list).remove(slot) =~= entries_of(list.drop_last()).remove(slot));
    } else {
        lemma_entry_removed(list.drop_last(), i);
        assert(list.remove(i).drop_last() =~= list.drop_last().remove(i));
        let last = list.last();
        assert(list.remove(i).last() == last);
        let fewer = entries_of(list.drop_last().remove(i));
        let more = entries_of(list.drop_last());
        assert(fewer.insert(slot_of(last), last.password.0@).remove(slot) =~= fewer.remove(
            slot,
        ).insert(slot_of(last), last.password.0@).remove(slot));
        assert(more.insert(slot_of(last), last.password.0@).remove(slot) =~= more.remove(
            slot,
        ).insert(slot_of(last), last.password.0@).remove(slot));
    }
}

proof fn lemma_slot_absent(list: Seq<Entry>, slot: Slot)
    requires
        forall|i: int| 0 <= i < list.len() ==> slot_of(#[trigger] list[i]) != slot,
    ensures
        !entries_of(list).dom().contains(slot),
    decreases list.len(),
{
    if list.len() > 0 {
        assert forall|i: int| 0 <= i < list.drop_last().len() implies slot_of(
            #[trigger] list.drop_last()[i],
        ) != slot by {
            assert(list.drop_last()[i] == list[i]);
        }
        lemma_slot_absent(list.drop_last(), slot);
    }
}

/// A keychain in memory.
pub struct MockKeychainBackend {
    pub list: Vec<Entry>,
}

impl Default for MockKeychainBackend {
    fn default() -> (keychain: Self)
        ensures
            keychain.entries() == Map::<Slot, Seq<char>>::empty(),
    {
        Self::new()
    }
}

impl MockKeychainBackend {
    /// An empty keychain.
    pub fn new() -> (keychain: Self)
        ensures
            keychain.entries() == Map::<Slot, Seq<char>>::empty(),
    {
        MockKeychainBackend { list: Vec::new() }
    }

    fn is_at(entry: &Entry, service: &str, username: &str) -> (at: bool)
        ensures
            at == (slot_of(*entry) == (service@, username@)),
    {
        text::same_text(&entry.service, service) && text::same_text(&entry.username, username)
    }

    fn forget(&mut self, service: &str, username: &str)
        ensures
            final(self).entries() == old(self).entries().remove((service@, username@)),
    {
        let ghost slot: Slot = (service@, username@);
        let ghost before = entries_of(self.list@);
        let mut i: usize = 0;
        while i < self.list.len()
            invariant
                i <= self.list@.len(),
                slot == (service@, username@),
                entries_of(self.list@).remove(slot) == before.remove(slot),
                forall|j: int| 0 <= j < i ==> slot_of(#[trigger] self.list@[j]) != slot,
            decreases self.list@.len() - i,
        {
            if Self::is_at(&self.list[i], service, username) {
                proof {
                    lemma_entry_removed(self.list@, i as int);
                }
                self.list.remove(i);
            } else {
                i = i + 1;
            }
        }
        proof {
            lemma_slot_absent(self.list@, slot);
        }
        assert(entries_of(self.list@).remove(slot) =~= entries_of(self.list@));
    }
}

impl KeychainBackend for MockKeychainBackend {
    open spec fn entries(&self) -> Contents {
        entries_of(self.list@)
    }

    open spec fn dependable(&self) -> bool {
        true
    }

    fn set_password(&mut self, service: &str, username: &str, password: &str) -> (result: Result<
        (),
        IdentityError,
    >) {
        let ghost before = entries_of(self.list@);
        self.forget(service, username);
        let ghost kept = self.list@;
        self.list.push(
            Entry {
                service: service.to_owned(),
                username: username.to_owned(),
                password: Scrubbed(password.to_owned()),
            },
        );
        assert(self.list@.drop_last() =~= kept);
        assert(entries_of(self.list@) =~= before.insert((service@, username@), password@));
        Ok(())
    }

    fn get_password(&self, service: &str, username: &str) -> (result: Result<
        String,
        IdentityError,
    >) {
        let ghost slot: Slot = (service@, username@);
        let mut i: usize = self.list.len();
        assert(self.list@.take(i as int) =~= self.list@);
        while i > 0
            invariant
                i <= self.list@.len(),
                slot == (service@, username@),
                entries_of(self.list@).dom().contains(slot) == entries_of(
                    self.list@.take(i as int),
                ).dom().contains(slot),
                entries_of(self.list@).dom().contains(slot) ==> entries_of(self.list@)[slot]
                    == entries_of(self.list@.take(i as int))[slot],
            decreases i,
        {
            assert(self.list@.take(i as int).drop_last() =~= self.list@.take(i - 1));
            let entry = &self.list[i - 1];
            if Self::is_at(entry, service, username) {
                return Ok(entry.password.0.clone());
            }
            i = i - 1;
        }
        Err(IdentityError::NotBootstrapped)
    }

    fn delete_password(&mut self, service: &str, username: &str) -> (result: Result<
        (),
        IdentityError,
    >) {
        self.forget(service, username);
        Ok(())
    }

    fn reset(&mut self)
        ensures
            final(self).entries() == Map::<Slot, Seq<char>>::empty(),
    {
        self.list = Vec::new();
    }
}

/// A keychain that is one of two: that of the operating system or one in memory.
pub struct DynamicKeychainBackend<R: KeychainBackend> {
    pub real: R,
    pub mock: MockKeychainBackend,
    pub use_mock: bool,
}

impl<R: KeychainBackend> DynamicKeychainBackend<R> {
    /// The keychain of the operating system, with an empty one beside it that is used instead
    /// if `use_mock` says so.
    pub fn new(backend: R, use_mock: bool) -> (keychain: Self)
        ensures
            keychain.real == backend,
            keychain.use_mock == use_mock,
            keychain.mock.entries() == Map::<Slot, Seq<char>>::empty(),
    {
        DynamicKeychainBackend { real: backend, mock: MockKeychainBackend::new(), use_mock }
    }
}

impl<R: KeychainBackend> KeychainBackend for DynamicKeychainBackend<R> {
    open spec fn entries(&self) -> Contents {
        if self.use_mock {
            self.mock.entries()
        } else {
            self.real.entries()
        }
    }

    open spec fn dependable(&self) -> bool {
        self.use_mock || self.real.dependable()
    }

    fn set_password(&mut self, service: &str, username: &str, password: &str) -> (result: Result<
        (),
        IdentityError,
    >)
        ensures
            final(self).use_mock == old(self).use_mock,
            old(self).use_mock ==> final(self).real == old(self).real,
            !old(self).use_mock ==> final(self).mock == old(self).mock,
    {
        if self.use_mock {
            self.mock.set_password(service, username, password)
        } else {
            self.real.set_password(service, username, password)
        }
    }

    fn get_password(&self, service: &str, username: &str) -> (result: Result<
        String,
        IdentityError,
    >) {
        if self.use_mock {
            self.mock.get_password(service, username)
        } else {
            self.real.get_password(service, username)
        }
    }

    fn delete_password(&mut self, service: &str, username: &str) -> (result: Result<
        (),
        IdentityError,
    >)
        ensures
            final(self).use_mock == old(self).use_mock,
            old(self).use_mock ==> final(self).real == old(self).real,
            !old(self).use_mock ==> final(self).mock == old(self).mock,
    {
        if self.use_mock {
            self.mock.delete_password(service, username)
        } else {
            self.real.delete_password(service, username)
        }
    }

    fn reset(&mut self)
        ensures
            final(self).use_mock == old(self).use_mock,
            old(self).use_mock ==> final(self).real == old(self).real && final(self).entries()
                == Map::<Slot, Seq<char>>::empty(),
            !old(self).use_mock ==> final(self).mock == old(self).mock,
    {
        if self.use_mock {
            self.mock.reset()
        } else {
            self.real.reset()
        }
    }
}

/// Of the entries of one slot the last one counts.
pub proof fn last_entry_counts(list: Seq<Entry>, i: int)
    requires
        0 <= i < list.len(),
        forall|j: int|
            i < j < list.len() ==> (#[trigger] list[j]).service@ != list[i].service@
                || list[j].username@ != list[i].username@,
    ensures
        entries_of(list).dom().contains((list[i].service@, list[i].username@)),
        entries_of(list)[(list[i].service@, list[i].username@)] == list[i].password.0@,
    decreases list.len(),
{
    if i < list.len() - 1 {
        assert(list[list.len() - 1] == list.last());
        last_entry_counts(list.drop_last(), i);
    }
}

/// A list holds nothing for a service and user name that none of its entries has.
pub proof fn nothing_else_is_held(list: Seq<Entry>, service: Seq<char>, username: Seq<char>)
    requires
        forall|i: int|
            0 <= i < list.len() ==> (#[trigger] list[i]).service@ != service || list[i].username@
                != username,
    ensures
        !entries_of(list).dom().contains((service, username)),
{
    lemma_slot_absent(list, (service, username));
}

/// A keychain that is one of two holds what the one in use holds.
pub proof fn keychain_in_use_counts<R: KeychainBackend>(keychain: DynamicKeychainBackend<R>)
    ensures
        keychain.use_mock ==> keychain.entries() == entries_of(keychain.mock.list@),
        keychain.use_mock ==> keychain.dependable(),
        !keychain.use_mock ==> keychain.entries() == keychain.real.entries(),
        !keychain.use_mock ==> keychain.dependable() == keychain.real.dependable(),
{
}

/// What a keychain answers is what it holds at the slot that it was asked for.
pub proof fn answer_is_what_is_held<K: KeychainBackend>(
    keychain: &K,
    slot: Slot,
    result: Result<String, IdentityError>,
)
    requires
        answers(keychain, slot, result),
    ensures
        result matches Ok(password) ==> keychain.entries().dom().contains(slot)
            && keychain.entries()[slot] == password@,
        result matches Err(IdentityError::NotBootstrapped) ==> !keychain.entries().dom().contains(
            slot,
        ),
{
    let (service, username) = choose|service: &str, username: &str|
        service@ == slot.0 && username@ == slot.1 && #[trigger] call_ensures(
            K::get_password,
            (keychain, service, username),
            result,
        );
    assert((service@, username@) == slot);
}

/// What a keychain answers was asked of it by the service and the user name of the slot.
pub proof fn answer_was_asked_for<K: KeychainBackend>(
    keychain: &K,
    slot: Slot,
    result: Result<String, IdentityError>,
) -> (asked: (&'static str, &'static str))
    requires
        answers(keychain, slot, result),
    ensures
        asked.0@ == slot.0,
        asked.1@ == slot.1,
        call_ensures(K::get_password, (keychain, asked.0, asked.1), result),
{
    choose|service: &'static str, username: &'static str|
        service@ == slot.0 && username@ == slot.1 && #[trigger] call_ensures(
            K::get_password,
            (keychain, service, username),
            result,
        )
}

/// What a keychain answers when it is to keep a password was the answer to that password, for the
/// service and the user name of the slot.
pub proof fn kept_password_was_handed_over<K: KeychainBackend>(
    before: K,
    slot: Slot,
    password: Seq<char>,
    result: Result<(), IdentityError>,
)
    requires
        keeps(before, slot, password, result),
    ensures
        exists|keychain: &mut K, service: &str, username: &str, kept: &str|
            *keychain == before && (service@, username@) == slot && kept@ == password
                && #[trigger] call_ensures(
                K::set_password,
                (keychain, service, username, kept),
                result,
            ),
{
}

} // verus!
