//! Setting up a new user: the identity, the vault, and proof that the secret key was written
//! down.
use crate::base32;
use crate::clock;
use crate::entropy;
use crate::identity;
use crate::identity::{IdentityError, KeychainBackend, LocalIdentity};
use crate::secret_key;
use crate::secret_key::SecretKey;
use crate::text;
use crate::vault;
use crate::vault::VaultStore;
use vstd::prelude::*;

verus! {

/// What a command says, and whether it went well.
#[derive(Debug)]
pub struct Report {
    pub out: Option<String>,
    pub err: Option<String>,
    pub success: bool,
}

/// A report of what is said and how it went.
pub open spec fn says(
    report: Report,
    out: Option<Seq<char>>,
    err: Option<Seq<char>>,
    success: bool,
) -> bool {
    &&& report.out is Some <==> out is Some
    &&& report.out matches Some(text) ==> out == Some(text@)
    &&& report.err is Some <==> err is Some
    &&& report.err matches Some(text) ==> err == Some(text@)
    &&& report.success == success
}

/// The report is what the bootstrap command says of making an identity and, where there was one
/// already, of loading it.
pub open spec fn reports(
    made: Result<LocalIdentity, IdentityError>,
    loaded: Result<LocalIdentity, IdentityError>,
    report: Report,
) -> bool {
    match made {
        Ok(identity) => says(report, Some(identity.did_key@), None, true),
        Err(IdentityError::AlreadyBootstrapped) => match loaded {
            Ok(identity) => says(
                report,
                Some(identity.did_key@),
                Some("Identity already bootstrapped."@),
                true,
            ),
            Err(error) => says(
                report,
                None,
                Some(
                    "Error: Identity is already bootstrapped, but failed to load it: "@
                        + identity::identity_message(error@),
                ),
                false,
            ),
        },
        Err(error) => says(
            report,
            None,
            Some("Error bootstrapping identity: "@ + identity::identity_message(error@)),
            false,
        ),
    }
}

/// What the bootstrap command says once it knows what came of making an identity and, where there
/// was one already, of loading it.
pub fn bootstrap_report(
    made: Result<LocalIdentity, IdentityError>,
    loaded: Result<LocalIdentity, IdentityError>,
) -> (report: Report)
    ensures
        reports(made, loaded, report),
        made matches Ok(identity) ==> {
            &&& report.success
            &&& report.out matches Some(out) && out@ == identity.did_key@
            &&& report.err is None
        },
        made matches Err(IdentityError::AlreadyBootstrapped) ==> match loaded {
            Ok(identity) => {
                &&& report.success
                &&& report.out matches Some(out) && out@ == identity.did_key@
                &&& report.err matches Some(err) && err@ == "Identity already bootstrapped."@
            },
            Err(error) => {
                &&& !report.success
                &&& report.out is None
                &&& report.err matches Some(err) && err@
                    == "Error: Identity is already bootstrapped, but failed to load it: "@
                    + identity::identity_message(error@)
            },
        },
        made matches Err(error) ==> (!(error is AlreadyBootstrapped) ==> {
            &&& !report.success
            &&& report.out is None
            &&& report.err matches Some(err) && err@ == "Error bootstrapping identity: "@
                + identity::identity_message(error@)
        }),
{
    match made {
        Ok(identity) => Report { out: Some(identity.did_key), err: None, success: true },
        Err(IdentityError::AlreadyBootstrapped) => match loaded {
            Ok(identity) => Report {
                out: Some(identity.did_key),
                err: Some("Identity already bootstrapped.".to_owned()),
                success: true,
            },
            Err(error) => Report {
                out: None,
                err: Some(
                    "Error: Identity is already bootstrapped, but failed to load it: ".to_owned()
                        .concat(&error.message()),
                ),
                success: false,
            },
        },
        Err(error) => Report {
            out: None,
            err: Some("Error bootstrapping identity: ".to_owned().concat(&error.message())),
            success: false,
        },
    }
}

/// `made` is what came of making an identity in the keychain as it was before, and `loaded` what
/// came of loading one from the keychain as it was after, where there was one already.
pub open spec fn attempts<K: KeychainBackend>(
    before: K,
    after: K,
    made: Result<LocalIdentity, IdentityError>,
    loaded: Result<LocalIdentity, IdentityError>,
) -> bool {
    &&& exists|keychain: &mut K|
        *keychain == before && #[trigger] call_ensures(
            LocalIdentity::bootstrap::<K>,
            (keychain,),
            made,
        )
    &&& made matches Err(IdentityError::AlreadyBootstrapped) ==> identity::loads_identity(
        &after,
        loaded,
    )
}

/// The words for an identity that could not be made because the clock stands before the Unix
/// epoch.
pub open spec fn tells_clock_fault(message: Seq<char>) -> bool {
    exists|text: String| #[trigger]
        clock::clock_told(Err::<u64, String>(text)) && message == "Error bootstrapping identity: "@
            + identity::identity_message(
            identity::IdentityFault::CorruptExistingIdentity(text@),
        )
}

/// The bootstrap command: makes an identity, or loads the one that is there, and says its name.
pub fn bootstrap_command<K: KeychainBackend>(keychain: &mut K) -> (report: Report)
    ensures
        exists|
            made: Result<LocalIdentity, IdentityError>,
            loaded: Result<LocalIdentity, IdentityError>,
        | #[trigger]
            attempts(*old(keychain), *final(keychain), made, loaded) && reports(
                made,
                loaded,
                report,
            ),
        final(keychain).dependable() == old(keychain).dependable(),
        report.success <==> report.out is Some,
        report.out matches Some(name) ==> {
            &&& identity::current_outcome(final(keychain).entries()) matches Ok(profile)
            &&& name@ == profile.did_key
        },
        old(keychain).dependable() && old(keychain).entries().dom().contains(
            identity::signing_slot(),
        ) ==> {
            &&& *final(keychain) == *old(keychain)
            &&& match identity::current_outcome(old(keychain).entries()) {
                Ok(profile) => says(
                    report,
                    Some(profile.did_key),
                    Some("Identity already bootstrapped."@),
                    true,
                ),
                Err(fault) => says(
                    report,
                    None,
                    Some(
                        "Error: Identity is already bootstrapped, but failed to load it: "@
                            + identity::identity_message(fault),
                    ),
                    false,
                ),
            }
        },
        old(keychain).dependable() && !old(keychain).entries().dom().contains(
            identity::signing_slot(),
        ) ==> {
            if report.success {
                &&& report.err is None
                &&& identity::current_outcome(final(keychain).entries()) matches Ok(profile)
                &&& identity::fresh_identity(
                    old(keychain).entries(),
                    final(keychain).entries(),
                    profile.created_at,
                )
            } else {
                &&& report.err matches Some(message) && tells_clock_fault(message@)
                &&& identity::fresh_keys(old(keychain).entries(), final(keychain).entries())
            }
        },
{
    let made = LocalIdentity::bootstrap(keychain);
    let loaded = match made {
        Err(IdentityError::AlreadyBootstrapped) => LocalIdentity::get_current(&*keychain),
        _ => Err(IdentityError::NotBootstrapped),
    };
    assert(attempts(*old(keychain), *keychain, made, loaded));
    bootstrap_report(made, loaded)
}

/// The identity that was made or, where there was one already, loaded; else what is said of it.
pub fn identity_or_message(
    made: Result<LocalIdentity, IdentityError>,
    loaded: Result<LocalIdentity, IdentityError>,
) -> (result: Result<LocalIdentity, String>)
    ensures
        obtains(made, loaded, result),
        made matches Ok(current) ==> result == Ok::<LocalIdentity, String>(current),
        made matches Err(IdentityError::AlreadyBootstrapped) ==> match loaded {
            Ok(current) => result == Ok::<LocalIdentity, String>(current),
            Err(error) => result matches Err(message) && message@
                == "Error: Identity already exists, but failed to load it: "@
                + identity::identity_message(error@),
        },
        made matches Err(error) ==> (!(error is AlreadyBootstrapped) ==> (result matches Err(message)
            && message@ == "Error bootstrapping identity: "@ + identity::identity_message(
            error@,
        ))),
{
    match made {
        Ok(current) => Ok(current),
        Err(IdentityError::AlreadyBootstrapped) => match loaded {
            Ok(current) => Ok(current),
            Err(error) => Err(
                "Error: Identity already exists, but failed to load it: ".to_owned().concat(
                    &error.message(),
                ),
            ),
        },
        Err(error) => Err("Error bootstrapping identity: ".to_owned().concat(&error.message())),
    }
}

/// `result` is what comes of making an identity and, where there was one already, of loading it.
pub open spec fn obtains(
    made: Result<LocalIdentity, IdentityError>,
    loaded: Result<LocalIdentity, IdentityError>,
    result: Result<LocalIdentity, String>,
) -> bool {
    match made {
        Ok(current) => result == Ok::<LocalIdentity, String>(current),
        Err(IdentityError::AlreadyBootstrapped) => match loaded {
            Ok(current) => result == Ok::<LocalIdentity, String>(current),
            Err(error) => result matches Err(message) && message@
                == "Error: Identity already exists, but failed to load it: "@
                + identity::identity_message(error@),
        },
        Err(error) => result matches Err(message) && message@ == "Error bootstrapping identity: "@
            + identity::identity_message(error@),
    }
}

/// Makes an identity, or loads the one that is there; says what went wrong with either.
pub fn obtain_identity<K: KeychainBackend>(keychain: &mut K) -> (result: Result<
    LocalIdentity,
    String,
>)
    ensures
        exists|
            made: Result<LocalIdentity, IdentityError>,
            loaded: Result<LocalIdentity, IdentityError>,
        | #[trigger]
            attempts(*old(keychain), *final(keychain), made, loaded) && obtains(
                made,
                loaded,
                result,
            ),
        final(keychain).dependable() == old(keychain).dependable(),
        result matches Ok(current) ==> identity::current_outcome(final(keychain).entries()) == Ok::<
            identity::Profile,
            identity::IdentityFault,
        >(current@),
        old(keychain).dependable() && old(keychain).entries().dom().contains(
            identity::signing_slot(),
        ) ==> {
            &&& *final(keychain) == *old(keychain)
            &&& match identity::current_outcome(old(keychain).entries()) {
                Ok(profile) => result matches Ok(current) && current@ == profile,
                Err(fault) => result matches Err(message) && message@
                    == "Error: Identity already exists, but failed to load it: "@
                    + identity::identity_message(fault),
            }
        },
        old(keychain).dependable() && !old(keychain).entries().dom().contains(
            identity::signing_slot(),
        ) ==> match result {
            Ok(current) => identity::fresh_identity(
                old(keychain).entries(),
                final(keychain).entries(),
                current.created_at,
            ),
            Err(message) => tells_clock_fault(message@) && identity::fresh_keys(
                old(keychain).entries(),
                final(keychain).entries(),
            ),
        },
{
    let made = LocalIdentity::bootstrap(keychain);
    let loaded = match made {
        Err(IdentityError::AlreadyBootstrapped) => LocalIdentity::get_current(&*keychain),
        _ => Err(IdentityError::NotBootstrapped),
    };
    assert(attempts(*old(keychain), *keychain, made, loaded));
    identity_or_message(made, loaded)
}

/// A vault whose user is set up already is left alone. What could not be found out counts as no.
pub fn already_onboarded(exists: bool, initialized: Option<bool>, protected: Option<bool>) -> (done:
    bool)
    ensures
        done == (exists && initialized == Some(true) && protected == Some(true)),
{
    match (initialized, protected) {
        (Some(initialized), Some(protected)) => exists && initialized && protected,
        _ => false,
    }
}

/// The PIN of a typed line: what is left without the white space around it, if anything is.
pub fn read_pin(line: &str) -> (result: Result<String, String>)
    ensures
        result is Ok <==> text::trimmed(line@).len() > 0,
        result matches Ok(pin) ==> pin@ == text::trimmed(line@),
        result matches Err(message) ==> message@ == "Error: PIN cannot be empty."@,
{
    let pin = text::trim(line);
    if pin.as_str().is_empty() {
        Err("Error: PIN cannot be empty.".to_owned())
    } else {
        Ok(pin)
    }
}

/// Initializes a vault that is new and unlocks one that is not; either way the PIN gives the
/// vault key.
pub fn prepare_vault(store: &mut VaultStore, pin: &[u8]) -> (result: Result<[u8; 32], String>)
    ensures
        final(store).rows == old(store).rows,
        final(store).backup == old(store).backup,
        result matches Ok(key) ==> final(store).outcome(pin@) == Ok::<Seq<u8>, vault::VaultFault>(
            key@,
        ),
        result is Err ==> final(store).headers == old(store).headers,
        old(store).headers@.len() > 0 ==> {
            &&& final(store).headers == old(store).headers
            &&& match old(store).outcome(pin@) {
                Ok(key) => result matches Ok(given) && given@ == key,
                Err(fault) => result matches Err(message) && message@
                    == "Error unlocking existing vault: "@ + vault::vault_message(fault),
            }
        },
        old(store).headers@.len() == 0 ==> (result matches Err(message) ==> message@
            == "Error initializing vault: "@ + vault::vault_message(
            vault::VaultFault::Crypto(
                if pin@.len() > vault::pin_limit() {
                    vault::pin_fault()
                } else {
                    vault::aead_fault()
                },
            ),
        )),
        old(store).headers@.len() == 0 ==> match result {
            Ok(key) => {
                let header = final(store).headers@.last();
                &&& final(store).headers@.len() == 1
                &&& entropy::os_gave(key)
                &&& exists|salt: [u8; 16]| #[trigger]
                    entropy::os_gave(salt) && vault::locks(header, pin@, salt@, key@)
                &&& vault::drawn_nonce(header.sealed_key@.take(12))
                &&& vault::drawn_nonce(header.sealed_check@.take(12))
            },
            Err(_) => pin@.len() <= vault::pin_limit() ==> entropy::system_failed::<12>(),
        },
{
    if store.is_initialized() {
        match store.unlock_key(pin) {
            Ok(key) => Ok(key),
            Err(error) => Err("Error unlocking existing vault: ".to_owned().concat(&error.message())),
        }
    } else {
        match store.initialize_vault(pin) {
            Ok(key) => Ok(key),
            Err(error) => Err("Error initializing vault: ".to_owned().concat(&error.message())),
        }
    }
}

/// How many groups a secret key is written in.
pub const GROUPS: usize = 7;

/// How many of them the user is asked for.
pub const QUESTIONS: usize = 3;

/// Calls `rand::seq::SliceRandom::shuffle` with `rand::thread_rng()`, which brings the items into
/// a random order. Nothing is known of the order.
#[verifier::external_body]
fn shuffle(items: Vec<usize>) -> (order: Vec<usize>)
    ensures
        order@.to_multiset() == items@.to_multiset(),
{
    let mut order = items;
    rand::seq::SliceRandom::shuffle(order.as_mut_slice(), &mut rand::thread_rng());
    order
}

/// Shuffling the items gave this order.
pub closed spec fn shuffle_gave(items: Vec<usize>, order: Vec<usize>) -> bool {
    call_ensures(shuffle, (items,), order)
}

/// Shuffling the positions of the groups gave this order.
pub open spec fn group_order(order: Vec<usize>) -> bool {
    exists|positions: Vec<usize>| #[trigger]
        shuffle_gave(positions, order) && positions@ == seq![
            0usize,
            1usize,
            2usize,
            3usize,
            4usize,
            5usize,
            6usize,
        ]
}

/// The three positions are in ascending order, and each is that of a group.
pub open spec fn ascending_groups(chosen: Seq<usize>) -> bool {
    chosen.len() == QUESTIONS && chosen[0] < chosen[1] < chosen[2] < GROUPS
}

/// The first three of an order of the groups, in ascending order.
pub fn first_groups(order: &Vec<usize>) -> (chosen: [usize; 3])
    requires
        order@.len() >= QUESTIONS,
    ensures
        chosen@.len() == 3,
        chosen@[0] <= chosen@[1] <= chosen@[2],
        chosen@.to_multiset() == order@.take(3).to_multiset(),
{
    let a: usize = order[0];
    let b: usize = order[1];
    let c: usize = order[2];
    let (low, high) = if a <= b {
        (a, b)
    } else {
        (b, a)
    };
    let chosen: [usize; 3] = if c <= low {
        [c, low, high]
    } else if c <= high {
        [low, c, high]
    } else {
        [low, high, c]
    };
    proof {
        broadcast use vstd::seq_lib::group_to_multiset_ensures;

        let first = order@.take(3);
        assert(first =~= Seq::empty().push(a).push(b).push(c));
        assert(chosen@ =~= Seq::empty().push(chosen@[0]).push(chosen@[1]).push(chosen@[2]));
        assert(chosen@.to_multiset() =~= first.to_multiset());
    }
    chosen
}

/// Three different groups, the first of a random order, in ascending order.
pub fn choose_groups() -> (chosen: [usize; 3])
    ensures
        ascending_groups(chosen@),
        chosen@[0] < chosen@[1] < chosen@[2] < 7,
        exists|order: Vec<usize>| #[trigger]
            group_order(order) && chosen@.to_multiset() == order@.take(3).to_multiset(),
{
    let positions: Vec<usize> = vec![0, 1, 2, 3, 4, 5, 6];
    let ghost before = positions;
    assert(positions@ =~= seq![0usize, 1usize, 2usize, 3usize, 4usize, 5usize, 6usize]);
    let order = shuffle(positions);
    proof {
        assert(shuffle_gave(before, order));
        assert(group_order(order));
        lemma_shuffled(before@, order@);
    }
    let chosen = first_groups(&order);
    proof {
        lemma_sorted_distinct(order@, chosen@);
    }
    chosen
}

proof fn lemma_shuffled(before: Seq<usize>, after: Seq<usize>)
    requires
        before.len() == GROUPS,
        forall|i: int| 0 <= i < GROUPS ==> before[i] == i,
        after.to_multiset() == before.to_multiset(),
    ensures
        after.len() == GROUPS,
        after.no_duplicates(),
        forall|i: int| 0 <= i < after.len() ==> #[trigger] after[i] < GROUPS,
{
    broadcast use vstd::seq_lib::group_to_multiset_ensures;

    assert(before.no_duplicates());
    before.lemma_multiset_has_no_duplicates();
    assert(after.len() == after.to_multiset().len());
    after.lemma_multiset_has_no_duplicates_conv();
    assert forall|i: int| 0 <= i < after.len() implies #[trigger] after[i] < GROUPS by {
        assert(after.contains(after[i]));
        assert(after.to_multiset().contains(after[i]));
        assert(before.contains(after[i]));
    }
}

proof fn lemma_sorted_distinct(order: Seq<usize>, chosen: Seq<usize>)
    requires
        order.len() == GROUPS,
        order.no_duplicates(),
        forall|i: int| 0 <= i < order.len() ==> #[trigger] order[i] < GROUPS,
        chosen.len() == 3,
        chosen[0] <= chosen[1] <= chosen[2],
        chosen.to_multiset() == order.take(3).to_multiset(),
    ensures
        ascending_groups(chosen),
{
    broadcast use vstd::seq_lib::group_to_multiset_ensures;

    let first = order.take(3);
    assert(first.no_duplicates());
    first.lemma_multiset_has_no_duplicates();
    chosen.lemma_multiset_has_no_duplicates_conv();
    assert(chosen[0] != chosen[1] && chosen[1] != chosen[2]);
    assert(chosen.contains(chosen[2]));
    assert(first.to_multiset().contains(chosen[2]));
    assert(first.contains(chosen[2]));
    let i = choose|i: int| 0 <= i < first.len() && first[i] == chosen[2];
    assert(order[i] < GROUPS);
}

/// The line is the right answer: apart from case and from the white space around it, it is the
/// group.
pub open spec fn right_answer(line: Seq<char>, group: Seq<char>) -> bool {
    let answer = text::upper_case(text::trimmed(line));
    answer.len() > 0 && answer == text::upper_case(group)
}

/// The line is the right answer for the group.
pub fn answer_matches(line: &str, group: &str) -> (right: bool)
    ensures
        right == right_answer(line@, group@),
        right <==> text::upper_case(text::trimmed(line@)) == text::upper_case(group@)
            && text::upper_case(text::trimmed(line@)).len() > 0,
        vstd::utf8::is_ascii_chars(line@) && vstd::utf8::is_ascii_chars(group@) ==> (right
            <==> text::trimmed(line@).len() > 0 && text::trimmed(line@).map_values(
            |c: char| text::ascii_capital(c),
        ) == group@.map_values(|c: char| text::ascii_capital(c))),
{
    proof {
        if vstd::utf8::is_ascii_chars(line@) {
            let bounds = text::trimmed_is_the_middle(line@);
            assert forall|i: int| 0 <= i < text::trimmed(line@).len() implies '\0'
                <= #[trigger] text::trimmed(line@)[i] <= '\u{7f}' by {
                assert(text::trimmed(line@)[i] == line@[bounds.0 + i]);
            }
        }
    }
    let answer = text::to_upper_case(&text::trim(line));
    let wanted = text::to_upper_case(group);
    !answer.as_str().is_empty() && text::same_text(&answer, &wanted)
}

/// Where the user stands in showing that the secret key was written down.
#[derive(Debug, Clone, Copy, PartialEq, Eq, Structural)]
pub enum Progress {
    /// So many questions have been answered right, and the next one is due.
    Asking(usize),
    /// A question was answered wrong.
    Failed,
    /// Every question was answered right.
    Passed,
}

/// Where an answer leads.
pub open spec fn after_answer(
    groups: Seq<Seq<char>>,
    chosen: Seq<usize>,
    progress: Progress,
    line: Seq<char>,
) -> Progress {
    match progress {
        Progress::Asking(answered) => if !right_answer(
            line,
            groups[chosen[answered as int] as int],
        ) {
            Progress::Failed
        } else if answered + 1 < QUESTIONS {
            Progress::Asking((answered + 1) as usize)
        } else {
            Progress::Passed
        },
        Progress::Failed => Progress::Failed,
        Progress::Passed => Progress::Passed,
    }
}

/// Where a run of answers leads.
pub open spec fn after_answers(
    groups: Seq<Seq<char>>,
    chosen: Seq<usize>,
    lines: Seq<Seq<char>>,
) -> Progress
    decreases lines.len(),
{
    if lines.len() == 0 {
        Progress::Asking(0)
    } else {
        after_answer(groups, chosen, after_answers(groups, chosen, lines.drop_last()), lines.last())
    }
}

/// The user passes exactly by answering the first three questions right, whatever follows.
pub proof fn backup_takes_three_right_answers(
    groups: Seq<Seq<char>>,
    chosen: Seq<usize>,
    lines: Seq<Seq<char>>,
)
    ensures
        after_answers(groups, chosen, lines) is Passed <==> (lines.len() >= QUESTIONS && forall|
            i: int,
        |
            0 <= i < QUESTIONS ==> right_answer(#[trigger] lines[i], groups[chosen[i] as int])),
        after_answers(groups, chosen, lines) matches Progress::Asking(answered) ==> {
            &&& answered == lines.len() < QUESTIONS
            &&& forall|i: int|
                0 <= i < answered ==> right_answer(#[trigger] lines[i], groups[chosen[i] as int])
        },
        after_answers(groups, chosen, lines) is Failed ==> exists|i: int|
            0 <= i < QUESTIONS && i < lines.len() && !right_answer(
                #[trigger] lines[i],
                groups[chosen[i] as int],
            ),
    decreases lines.len(),
{
    if lines.len() > 0 {
        let fewer = lines.drop_last();
        backup_takes_three_right_answers(groups, chosen, fewer);
        let last = lines.len() - 1;
        assert(forall|i: int| 0 <= i < fewer.len() ==> fewer[i] == #[trigger] lines[i]);
        match after_answers(groups, chosen, fewer) {
            Progress::Asking(answered) => {
                assert(lines[last] == lines.last());
                if right_answer(lines.last(), groups[chosen[answered as int] as int]) {
                    assert forall|i: int| 0 <= i <= last implies right_answer(
                        #[trigger] lines[i],
                        groups[chosen[i] as int],
                    ) by {
                        if i < last {
                            assert(fewer[i] == lines[i]);
                        }
                    }
                } else {
                    assert(!right_answer(lines[last], groups[chosen[last] as int]));
                }
            },
            Progress::Failed => {
                let i = choose|i: int|
                    0 <= i < QUESTIONS && i < fewer.len() && !right_answer(
                        #[trigger] fewer[i],
                        groups[chosen[i] as int],
                    );
                assert(lines[i] == fewer[i]);
                assert(!right_answer(lines[i], groups[chosen[i] as int]));
            },
            Progress::Passed => {
                assert forall|i: int| 0 <= i < QUESTIONS implies right_answer(
                    #[trigger] lines[i],
                    groups[chosen[i] as int],
                ) by {
                    assert(fewer[i] == lines[i]);
                }
            },
        }
    }
}

/// The questions by which the user shows that the secret key was written down.
pub struct BackupCheck {
    groups: Vec<String>,
    chosen: [usize; 3],
    progress: Progress,
}

impl BackupCheck {
    /// The groups of the secret key.
    pub closed spec fn groups(self) -> Seq<Seq<char>> {
        text::contents(self.groups@)
    }

    /// The positions of the groups that are asked for.
    pub closed spec fn chosen(self) -> Seq<usize> {
        self.chosen@
    }

    /// Where the user stands.
    pub closed spec fn progress(self) -> Progress {
        self.progress
    }

    /// There is a group at each position that is asked for, and no more than three questions.
    pub open spec fn wf(self) -> bool {
        &&& self.groups().len() == GROUPS
        &&& self.chosen().len() == QUESTIONS
        &&& forall|i: int| 0 <= i < QUESTIONS ==> #[trigger] self.chosen()[i] < GROUPS
        &&& self.progress() matches Progress::Asking(answered) ==> answered < QUESTIONS
    }

    /// The questions about the chosen groups of a secret key.
    pub fn new(key: &SecretKey, chosen: [usize; 3]) -> (check: Self)
        requires
            ascending_groups(chosen@),
        ensures
            check.wf(),
            check.groups() == text::pieces(
                secret_key::grouped(base32::base32_text(key@)),
                '-',
            ),
            check.groups().len() == 7,
            forall|i: int|
                0 <= i < 7 ==> #[trigger] check.groups()[i] == base32::base32_text(key@).subrange(
                    4 * i,
                    if i < 6 {
                        4 * i + 4
                    } else {
                        26
                    },
                ),
            check.chosen() == chosen@,
            check.progress() == Progress::Asking(0),
    {
        let formatted = key.to_base32();
        let groups = text::split(&formatted, '-');
        let entropy = key.to_bytes();
        proof {
            secret_key::secret_key_has_seven_groups(entropy@);
            secret_key::groups_of_a_key(entropy@);
        }
        BackupCheck { groups, chosen, progress: Progress::Asking(0) }
    }

    /// The number of the group that is asked for next, counted from one.
    pub fn question(&self) -> (number: Option<usize>)
        requires
            self.wf(),
        ensures
            number == match self.progress() {
                Progress::Asking(answered) => Some(
                    (self.chosen()[answered as int] + 1) as usize,
                ),
                _ => None,
            },
    {
        match self.progress {
            Progress::Asking(answered) => {
                assert(self.chosen()[answered as int] < GROUPS);
                Some(self.chosen[answered] + 1)
            },
            _ => None,
        }
    }

    /// Takes the answer to the question that is due.
    pub fn answer(&mut self, line: &str)
        requires
            old(self).wf(),
        ensures
            final(self).wf(),
            final(self).groups() == old(self).groups(),
            final(self).chosen() == old(self).chosen(),
            final(self).progress() == after_answer(
                old(self).groups(),
                old(self).chosen(),
                old(self).progress(),
                line@,
            ),
    {
        match self.progress {
            Progress::Asking(answered) => {
                assert(self.chosen()[answered as int] < GROUPS);
                let at: usize = self.chosen[answered];
                assert(self.groups()[at as int] == self.groups@[at as int]@);
                if !answer_matches(line, &self.groups[at]) {
                    self.progress = Progress::Failed;
                } else if answered + 1 < QUESTIONS {
                    self.progress = Progress::Asking(answered + 1);
                } else {
                    self.progress = Progress::Passed;
                }
            },
            Progress::Failed => {},
            Progress::Passed => {},
        }
    }

    /// Where the user stands.
    pub fn status(&self) -> (progress: Progress)
        ensures
            progress == self.progress(),
    {
        self.progress
    }

    /// Marks the vault as protected, if every question was answered right.
    pub fn protect(&self, store: &mut VaultStore) -> (protected: bool)
        ensures
            protected == (self.progress() is Passed),
            final(store).headers == old(store).headers,
            final(store).rows == old(store).rows,
            final(store).backup.verifier == old(store).backup.verifier,
            final(store).backup.confirmed == (old(store).backup.confirmed || self.progress()
                is Passed),
    {
        match self.progress {
            Progress::Passed => {
                store.mark_protected();
                true
            },
            _ => false,
        }
    }
}

/// What a report says is what is in it.
pub proof fn report_holds_what_is_said(
    report: Report,
    out: Option<Seq<char>>,
    err: Option<Seq<char>>,
    success: bool,
)
    requires
        says(report, out, err, success),
    ensures
        report.success == success,
        match out {
            Some(words) => report.out matches Some(text) && text@ == words,
            None => report.out is None,
        },
        match err {
            Some(words) => report.err matches Some(text) && text@ == words,
            None => report.err is None,
        },
{
}

/// The command reports success exactly if an identity was made, or was there and could be loaded,
/// and it says the name of that identity; what went wrong it says in words.
pub proof fn report_names_the_identity(
    made: Result<LocalIdentity, IdentityError>,
    loaded: Result<LocalIdentity, IdentityError>,
    report: Report,
)
    requires
        reports(made, loaded, report),
    ensures
        report.success <==> made is Ok || (made matches Err(IdentityError::AlreadyBootstrapped)
            && loaded is Ok),
        report.success <==> report.out is Some,
        made matches Ok(identity) ==> (report.out matches Some(out) && out@ == identity.did_key@)
            && report.err is None,
        made is Err ==> report.err is Some,
        made matches Err(IdentityError::AlreadyBootstrapped) ==> (loaded matches Ok(identity) ==> (
        report.out matches Some(out) && out@ == identity.did_key@) && (report.err matches Some(err)
            && err@ == "Identity already bootstrapped."@)),
        made matches Err(IdentityError::AlreadyBootstrapped) ==> (loaded matches Err(error) ==> (
        report.err matches Some(err) && err@
            == "Error: Identity is already bootstrapped, but failed to load it: "@
            + identity::identity_message(error@))),
        made matches Err(error) ==> (!(error is AlreadyBootstrapped) ==> (report.err matches Some(
            err,
        ) && err@ == "Error bootstrapping identity: "@ + identity::identity_message(error@))),
{
}

/// An identity is obtained exactly if one was made, or was there and could be loaded, and it is
/// that one.
pub proof fn obtained_identity_was_made_or_loaded(
    made: Result<LocalIdentity, IdentityError>,
    loaded: Result<LocalIdentity, IdentityError>,
    result: Result<LocalIdentity, String>,
)
    requires
        obtains(made, loaded, result),
    ensures
        result is Ok <==> made is Ok || (made matches Err(IdentityError::AlreadyBootstrapped)
            && loaded is Ok),
        result matches Ok(identity) ==> made == Ok::<LocalIdentity, IdentityError>(identity) || (
        made matches Err(IdentityError::AlreadyBootstrapped) && loaded == Ok::<
            LocalIdentity,
            IdentityError,
        >(identity)),
        made matches Err(IdentityError::AlreadyBootstrapped) ==> (loaded matches Err(error) ==> (
        result matches Err(message) && message@
            == "Error: Identity already exists, but failed to load it: "@
            + identity::identity_message(error@))),
        made matches Err(error) ==> (!(error is AlreadyBootstrapped) ==> (result matches Err(message)
            && message@ == "Error bootstrapping identity: "@ + identity::identity_message(
            error@,
        ))),
{
}

/// A line is the right answer exactly if, without the white space around it and in upper case, it
/// is the group in upper case, and not empty.
pub proof fn right_answer_is_the_group(line: Seq<char>, group: Seq<char>)
    ensures
        right_answer(line, group) <==> text::upper_case(text::trimmed(line)) == text::upper_case(
            group,
        ) && text::upper_case(text::trimmed(line)) != Seq::<char>::empty(),
{
    let answer = text::upper_case(text::trimmed(line));
    if answer.len() == 0 {
        assert(answer =~= Seq::<char>::empty());
    }
}

/// Two right answers for one group are one answer, apart from case and from the white space around
/// it; and one line is the right answer for two groups only if they are one group, apart from
/// case.
pub proof fn one_answer_is_right(
    first: Seq<char>,
    second: Seq<char>,
    group: Seq<char>,
    other: Seq<char>,
)
    ensures
        right_answer(first, group) && right_answer(second, group) ==> text::upper_case(
            text::trimmed(first),
        ) == text::upper_case(text::trimmed(second)),
        right_answer(first, group) && right_answer(first, other) ==> text::upper_case(group)
            == text::upper_case(other),
{
}

/// White space before and after an answer does not matter.
pub proof fn white_space_around_an_answer_does_not_matter(
    before: Seq<char>,
    line: Seq<char>,
    after: Seq<char>,
    group: Seq<char>,
)
    requires
        forall|i: int| 0 <= i < before.len() ==> text::white_space(#[trigger] before[i]),
        forall|i: int| 0 <= i < after.len() ==> text::white_space(#[trigger] after[i]),
    ensures
        right_answer(before + line + after, group) <==> right_answer(line, group),
{
    text::outer_white_space_is_trimmed(before, line, after);
}

/// A right answer brings the next question, and the third right answer ends the check; a wrong one
/// fails it for good, and after the end no answer counts.
pub proof fn answers_lead_on(
    groups: Seq<Seq<char>>,
    chosen: Seq<usize>,
    answered: usize,
    line: Seq<char>,
)
    requires
        answered < 3,
    ensures
        ({
            let group = groups[chosen[answered as int] as int];
            let next = after_answer(groups, chosen, Progress::Asking(answered), line);
            if text::upper_case(text::trimmed(line)) != text::upper_case(group) || text::upper_case(
                group,
            ).len() == 0 {
                next is Failed
            } else if answered == 2 {
                next is Passed
            } else {
                next matches Progress::Asking(more) && more == answered + 1
            }
        }),
        after_answer(groups, chosen, Progress::Failed, line) is Failed,
        after_answer(groups, chosen, Progress::Passed, line) is Passed,
{
}

/// Whoever passes has answered the first three questions right.
pub proof fn passing_takes_the_three_groups(
    groups: Seq<Seq<char>>,
    chosen: Seq<usize>,
    lines: Seq<Seq<char>>,
    i: int,
)
    requires
        after_answers(groups, chosen, lines) is Passed,
        0 <= i < 3,
    ensures
        lines.len() >= 3,
        text::upper_case(text::trimmed(lines[i])) == text::upper_case(groups[chosen[i] as int]),
        text::upper_case(groups[chosen[i] as int]).len() > 0,
{
    backup_takes_three_right_answers(groups, chosen, lines);
    assert(right_answer(lines[i], groups[chosen[i] as int]));
}

/// The groups that are asked for are three of the seven, and no two of them are the same.
pub proof fn three_of_seven_groups(chosen: Seq<usize>)
    ensures
        ascending_groups(chosen) <==> chosen.len() == 3 && chosen[0] < chosen[1] && chosen[1]
            < chosen[2] && chosen[2] < 7,
{
}

/// An order of the groups is what shuffling the seven positions gave.
proof fn group_order_was_shuffled(order: Vec<usize>) -> (positions: Vec<usize>)
    requires
        group_order(order),
    ensures
        call_ensures(shuffle, (positions,), order),
        positions@.len() == 7,
        forall|i: int| 0 <= i < 7 ==> #[trigger] positions@[i] == i,
        order@.to_multiset() == positions@.to_multiset(),
{
    choose|positions: Vec<usize>| #[trigger]
        shuffle_gave(positions, order) && positions@ == seq![
            0usize,
            1usize,
            2usize,
            3usize,
            4usize,
            5usize,
            6usize,
        ]
}

/// The words for a clock that stands before the Unix epoch are those that the clock was told by.
pub proof fn clock_fault_is_told(message: Seq<char>) -> (text: String)
    requires
        tells_clock_fault(message),
    ensures
        clock::clock_told(Err::<u64, String>(text)),
        message == "Error bootstrapping identity: "@ + ("Corrupt existing identity: "@ + text@),
{
    choose|text: String| #[trigger]
        clock::clock_told(Err::<u64, String>(text)) && message == "Error bootstrapping identity: "@
            + identity::identity_message(
            identity::IdentityFault::CorruptExistingIdentity(text@),
        )
}

/// An identity is loaded only where making one found that there is one already, and then from the
/// keychain as it is after.
pub proof fn loading_follows_a_refusal<K: KeychainBackend>(
    before: K,
    after: K,
    made: Result<LocalIdentity, IdentityError>,
    loaded: Result<LocalIdentity, IdentityError>,
)
    requires
        attempts(before, after, made, loaded),
        made matches Err(IdentityError::AlreadyBootstrapped),
    ensures
        identity::loads_identity(&after, loaded),
{
}

/// What came of making an identity is the outcome of a bootstrap of the keychain as it was before.
pub proof fn identity_was_bootstrapped<K: KeychainBackend>(
    before: K,
    after: K,
    made: Result<LocalIdentity, IdentityError>,
    loaded: Result<LocalIdentity, IdentityError>,
)
    requires
        attempts(before, after, made, loaded),
    ensures
        exists|keychain: &mut K|
            *keychain == before && #[trigger] call_ensures(
                LocalIdentity::bootstrap::<K>,
                (keychain,),
                made,
            ),
{
}

} // verus!
