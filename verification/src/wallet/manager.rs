//! The wallet manager: key pairs kept under names that are unique.

use crate::solana::{generate_keypair, keypair_pubkey};
use crate::wallet::naming::{
    already_exists, already_exists_message, auto_prefix, batch_name, batch_names,
    batch_wallet_name, lemma_batch_name_injective, not_found, not_found_message,
};
use vstd::string::StringExecFns;
use solana_sdk::pubkey::Pubkey;
use solana_sdk::signature::Keypair;
use vstd::prelude::*;

verus! {

/// What the manager keeps of one wallet.
pub struct WalletView {
    pub keypair: Keypair,
    pub pubkey: Pubkey,
}

/// A wallet under its name.
struct Wallet {
    name: String,
    keypair: Keypair,
    pubkey: Pubkey,
}

impl Wallet {
    spec fn name(self) -> Seq<char> {
        self.name@
    }

    spec fn content(self) -> WalletView {
        WalletView { keypair: self.keypair, pubkey: self.pubkey }
    }
}

/// No two wallets in the list share a name.
spec fn distinct_names(wallets: Seq<Wallet>) -> bool {
    forall|i: int, j: int|
        0 <= i < j < wallets.len() ==> (#[trigger] wallets[i]).name()
            != (#[trigger] wallets[j]).name()
}

/// The wallets of a list, by name. Of two wallets with one name the later
/// one counts.
spec fn by_name(wallets: Seq<Wallet>) -> Map<Seq<char>, WalletView>
    decreases wallets.len(),
{
    if wallets.len() == 0 {
        Map::empty()
    } else {
        by_name(wallets.drop_last()).insert(wallets.last().name(), wallets.last().content())
    }
}

/// The names in the map are the names in the list, and there are finitely
/// many.
proof fn lemma_by_name_domain(wallets: Seq<Wallet>)
    ensures
        by_name(wallets).dom().finite(),
        forall|name: Seq<char>| #[trigger]
            by_name(wallets).contains_key(name) <==> exists|i: int|
                0 <= i < wallets.len() && (#[trigger] wallets[i]).name() == name,
    decreases wallets.len(),
{
    if wallets.len() > 0 {
        let earlier = wallets.drop_last();
        lemma_by_name_domain(earlier);
        assert forall|name: Seq<char>| #[trigger]
            by_name(wallets).contains_key(name) <==> exists|i: int|
                0 <= i < wallets.len() && (#[trigger] wallets[i]).name() == name by {
            if by_name(wallets).contains_key(name) {
                if name == wallets.last().name() {
                    assert(wallets[wallets.len() - 1].name() == name);
                } else {
                    assert(by_name(earlier).contains_key(name));
                    let i = choose|i: int|
                        0 <= i < earlier.len() && (#[trigger] earlier[i]).name() == name;
                    assert(wallets[i].name() == name);
                }
            }
            if exists|i: int| 0 <= i < wallets.len() && (#[trigger] wallets[i]).name() == name {
                let i = choose|i: int|
                    0 <= i < wallets.len() && (#[trigger] wallets[i]).name() == name;
                if i < wallets.len() - 1 {
                    assert(earlier[i].name() == name);
                }
            }
        }
    }
}

/// With distinct names, each wallet of the list is the one the map holds
/// under its name, and the map holds as many wallets as the list.
proof fn lemma_by_name_entries(wallets: Seq<Wallet>)
    requires
        distinct_names(wallets),
    ensures
        by_name(wallets).dom().finite(),
        by_name(wallets).dom().len() == wallets.len(),
        forall|i: int|
            0 <= i < wallets.len() ==> by_name(wallets).contains_key((#[trigger] wallets[i]).name())
                && by_name(wallets)[wallets[i].name()] == wallets[i].content(),
    decreases wallets.len(),
{
    lemma_by_name_domain(wallets);
    if wallets.len() > 0 {
        let earlier = wallets.drop_last();
        let last = wallets.last();
        assert(distinct_names(earlier)) by {
            assert forall|i: int, j: int|
                0 <= i < j < earlier.len() implies (#[trigger] earlier[i]).name()
                != (#[trigger] earlier[j]).name() by {
                assert(earlier[i] == wallets[i]);
                assert(earlier[j] == wallets[j]);
            }
        }
        lemma_by_name_entries(earlier);
        lemma_by_name_domain(earlier);
        assert(!by_name(earlier).contains_key(last.name())) by {
            if by_name(earlier).contains_key(last.name()) {
                let i = choose|i: int|
                    0 <= i < earlier.len() && (#[trigger] earlier[i]).name() == last.name();
                assert(wallets[i].name() == wallets[wallets.len() - 1].name());
            }
        }
        assert forall|i: int| 0 <= i < wallets.len() implies by_name(wallets).contains_key(
            (#[trigger] wallets[i]).name(),
        ) && by_name(wallets)[wallets[i].name()] == wallets[i].content() by {
            if i < wallets.len() - 1 {
                assert(earlier[i] == wallets[i]);
                assert(wallets[i].name() != wallets[wallets.len() - 1].name());
            }
        }
    }
}

/// Taking a wallet out of a list with distinct names takes its name out of
/// the map and leaves the rest.
proof fn lemma_by_name_remove(wallets: Seq<Wallet>, at: int)
    requires
        distinct_names(wallets),
        0 <= at < wallets.len(),
    ensures
        distinct_names(wallets.remove(at)),
        by_name(wallets.remove(at)) == by_name(wallets).remove(wallets[at].name()),
{
    let rest = wallets.remove(at);
    assert(distinct_names(rest)) by {
        assert forall|i: int, j: int| 0 <= i < j < rest.len() implies (#[trigger] rest[i]).name()
            != (#[trigger] rest[j]).name() by {
            let from_i = if i < at { i } else { i + 1 };
            let from_j = if j < at { j } else { j + 1 };
            assert(rest[i] == wallets[from_i]);
            assert(rest[j] == wallets[from_j]);
        }
    }
    lemma_by_name_entries(wallets);
    lemma_by_name_entries(rest);
    lemma_by_name_domain(wallets);
    lemma_by_name_domain(rest);
    let left = by_name(rest);
    let right = by_name(wallets).remove(wallets[at].name());
    assert forall|name: Seq<char>| left.contains_key(name) <==> right.contains_key(name) by {
        if left.contains_key(name) {
            let i = choose|i: int| 0 <= i < rest.len() && (#[trigger] rest[i]).name() == name;
            let from_i = if i < at { i } else { i + 1 };
            assert(rest[i] == wallets[from_i]);
            assert(wallets[from_i].name() != wallets[at].name());
        }
        if right.contains_key(name) {
            let i = choose|i: int|
                0 <= i < wallets.len() && (#[trigger] wallets[i]).name() == name;
            let to_i = if i < at { i } else { i - 1 };
            assert(rest[to_i] == wallets[i]);
        }
    }
    assert forall|name: Seq<char>| left.contains_key(name) implies left[name] == right[name] by {
        let i = choose|i: int| 0 <= i < rest.len() && (#[trigger] rest[i]).name() == name;
        let from_i = if i < at { i } else { i + 1 };
        assert(rest[i] == wallets[from_i]);
    }
    assert(left =~= right);
}

/// Putting a wallet under a new name at the end of a list with distinct
/// names puts it into the map and keeps the names distinct.
proof fn lemma_by_name_push(wallets: Seq<Wallet>, wallet: Wallet)
    requires
        distinct_names(wallets),
        !by_name(wallets).contains_key(wallet.name()),
    ensures
        distinct_names(wallets.push(wallet)),
        by_name(wallets.push(wallet)) == by_name(wallets).insert(wallet.name(), wallet.content()),
{
    lemma_by_name_domain(wallets);
    assert(wallets.push(wallet).drop_last() =~= wallets);
    let longer = wallets.push(wallet);
    assert forall|i: int, j: int| 0 <= i < j < longer.len() implies (#[trigger] longer[i]).name()
        != (#[trigger] longer[j]).name() by {
        assert(longer[i] == wallets[i]);
        if j < wallets.len() {
            assert(longer[j] == wallets[j]);
        }
    }
}

/// Whether a list of names and addresses lists the wallets of the map: each
/// wallet once, under its name and with its address.
pub open spec fn is_listing(
    listing: Seq<(String, Pubkey)>,
    wallets: Map<Seq<char>, WalletView>,
) -> bool {
    &&& listing.len() == wallets.dom().len()
    &&& forall|i: int|
        0 <= i < listing.len() ==> wallets.contains_key((#[trigger] listing[i]).0@)
            && wallets[listing[i].0@].pubkey == listing[i].1
    &&& forall|i: int, j: int|
        0 <= i < j < listing.len() ==> (#[trigger] listing[i]).0@ != (#[trigger] listing[j]).0@
}

/// A batch that stopped at its wallet number `reached`, counted from the
/// first: that wallet's name was taken, no earlier one's was, the error
/// names it, and the wallets before it were added.
pub open spec fn stopped_at(
    before: Map<Seq<char>, WalletView>,
    after: Map<Seq<char>, WalletView>,
    prefix: Seq<char>,
    first: nat,
    count: nat,
    reached: nat,
    message: Seq<char>,
) -> bool {
    &&& reached < count
    &&& before.contains_key(batch_name(prefix, first + reached))
    &&& forall|index: nat|
        first <= index < first + reached ==> !before.contains_key(
            #[trigger] batch_name(prefix, index),
        )
    &&& message == already_exists_message(batch_name(prefix, first + reached))
    &&& after.dom() == before.dom().union(batch_names(prefix, first, reached))
}

/// What a batch of `count` wallets, numbered from `first`, does to the
/// wallets of a manager and what it returns.
///
/// It succeeds exactly when none of its names is taken. It then returns the
/// names in order and has added a wallet under each. Otherwise it stops at
/// the first name that is taken. Either way the wallets that were there
/// before are left as they were.
pub open spec fn batch_outcome(
    before: Map<Seq<char>, WalletView>,
    after: Map<Seq<char>, WalletView>,
    prefix: Seq<char>,
    first: nat,
    count: nat,
    result: Result<Vec<String>, String>,
) -> bool {
    &&& forall|name: Seq<char>|
        before.contains_key(name) ==> after[name] == #[trigger] before[name]
    &&& match result {
        Ok(names) => {
            &&& names@.len() == count
            &&& forall|i: int|
                0 <= i < count ==> (#[trigger] names@[i])@ == batch_name(prefix, (first + i) as nat)
            &&& forall|index: nat|
                first <= index < first + count ==> !before.contains_key(
                    #[trigger] batch_name(prefix, index),
                )
            &&& after.dom() == before.dom().union(batch_names(prefix, first, count))
        },
        Err(message) => exists|reached: nat| #[trigger]
            stopped_at(before, after, prefix, first, count, reached, message@),
    }
}

/// A run of names that is longer by one has the name of the next number
/// more.
proof fn lemma_batch_names_grow(prefix: Seq<char>, first: nat, count: nat)
    ensures
        batch_names(prefix, first, count + 1) == batch_names(prefix, first, count).insert(
            batch_name(prefix, first + count),
        ),
{
    let longer = batch_names(prefix, first, count + 1);
    let grown = batch_names(prefix, first, count).insert(batch_name(prefix, first + count));
    assert forall|name: Seq<char>| longer.contains(name) implies grown.contains(name) by {
        let index = choose|index: nat|
            first <= index < first + count + 1 && name == #[trigger] batch_name(prefix, index);
        if index < first + count {
            assert(name == batch_name(prefix, index));
        }
    }
    assert forall|name: Seq<char>| grown.contains(name) implies longer.contains(name) by {
        if name == batch_name(prefix, first + count) {
        } else {
            let index = choose|index: nat|
                first <= index < first + count && name == #[trigger] batch_name(prefix, index);
            assert(name == batch_name(prefix, index));
        }
    }
    assert(longer =~= grown);
}

/// A batch that finds the name of its next wallet among the wallets it
/// started from plus the ones it has added found it among the former, and
/// stops there.
proof fn lemma_batch_stops(
    start: Map<Seq<char>, WalletView>,
    current: Map<Seq<char>, WalletView>,
    prefix: Seq<char>,
    first: nat,
    count: nat,
    done: nat,
    result: Result<Vec<String>, String>,
)
    requires
        done < count,
        result is Err,
        result->Err_0@ == already_exists_message(batch_name(prefix, first + done)),
        current.contains_key(batch_name(prefix, first + done)),
        forall|index: nat|
            first <= index < first + done ==> !start.contains_key(
                #[trigger] batch_name(prefix, index),
            ),
        current.dom() == start.dom().union(batch_names(prefix, first, done)),
        forall|name: Seq<char>|
            start.contains_key(name) ==> current[name] == #[trigger] start[name],
    ensures
        batch_outcome(start, current, prefix, first, count, result),
{
    let taken = batch_name(prefix, first + done);
    if batch_names(prefix, first, done).contains(taken) {
        let index = choose|index: nat|
            first <= index < first + done && taken == #[trigger] batch_name(prefix, index);
        lemma_batch_name_injective(prefix, index, first + done);
    }
    assert(start.contains_key(taken));
    assert(stopped_at(start, current, prefix, first, count, done, result->Err_0@));
}

/// The wallets that were set aside for one task.
#[derive(Debug, Clone)]
pub struct TaskGroup {
    /// The task the wallets work for.
    pub task_name: String,
    /// The names of the wallets, as the manager knows them.
    pub wallet_names: Vec<String>,
    /// When the group was formed.
    pub created_at: std::time::SystemTime,
}

/// Key pairs under unique names, and the number that the next automatic
/// name starts from.
pub struct WalletManager {
    wallets: Vec<Wallet>,
    counter: usize,
}

impl WalletManager {
    #[verifier::type_invariant]
    spec fn names_are_unique(self) -> bool {
        distinct_names(self.wallets@)
    }

    /// The wallets the manager holds, by name.
    pub closed spec fn wallets(&self) -> Map<Seq<char>, WalletView> {
        by_name(self.wallets@)
    }

    /// The number of the next wallet to be named automatically.
    pub closed spec fn counter(&self) -> nat {
        self.counter as nat
    }

    /// A manager that holds no wallet yet.
    pub fn new() -> (manager: WalletManager)
        ensures
            manager.wallets() == Map::<Seq<char>, WalletView>::empty(),
            manager.counter() == 0,
    {
        WalletManager { wallets: Vec::new(), counter: 0 }
    }

    /// Where in the list the wallet of the given name stands.
    fn position(&self, name: &str) -> (found: Option<usize>)
        ensures
            match found {
                Some(at) => at < self.wallets@.len() && self.wallets@[at as int].name() == name@,
                None => forall|i: int|
                    0 <= i < self.wallets@.len() ==> (#[trigger] self.wallets@[i]).name() != name@,
            },
            found.is_some() == self.wallets().contains_key(name@),
    {
        proof {
            lemma_by_name_domain(self.wallets@);
        }
        let wanted = String::from_str(name);
        let mut at: usize = 0;
        while at < self.wallets.len()
            invariant
                at <= self.wallets@.len(),
                wanted@ == name@,
                forall|i: int| 0 <= i < at ==> (#[trigger] self.wallets@[i]).name() != name@,
            decreases self.wallets@.len() - at,
        {
            if self.wallets[at].name == wanted {
                proof {
                    lemma_by_name_domain(self.wallets@);
                    assert(self.wallets@[at as int].name() == name@);
                }
                return Some(at);
            }
            at += 1;
        }
        proof {
            lemma_by_name_domain(self.wallets@);
        }
        None
    }

    /// Generates a key pair and keeps it under `name`, unless the name is
    /// taken. Returns the address of the new wallet.
    pub fn generate_wallet(&mut self, name: String) -> (result: Result<Pubkey, String>)
        ensures
            final(self).counter() == old(self).counter(),
            match result {
                Ok(pubkey) => {
                    &&& !old(self).wallets().contains_key(name@)
                    &&& final(self).wallets().contains_key(name@)
                    &&& final(self).wallets()[name@].pubkey == pubkey
                    &&& final(self).wallets() == old(self).wallets().insert(
                        name@,
                        final(self).wallets()[name@],
                    )
                },
                Err(message) => {
                    &&& old(self).wallets().contains_key(name@)
                    &&& message@ == already_exists_message(name@)
                    &&& final(self).wallets() == old(self).wallets()
                },
            },
    {
        proof {
            use_type_invariant(&*self);
        }
        if self.position(name.as_str()).is_some() {
            return Err(already_exists(name.as_str()));
        }
        let keypair = generate_keypair();
        let pubkey = keypair_pubkey(&keypair);
        let wallet = Wallet { name, keypair, pubkey };
        proof {
            lemma_by_name_push(self.wallets@, wallet);
        }
        let mut wallets: Vec<Wallet> = Vec::new();
        std::mem::swap(&mut self.wallets, &mut wallets);
        wallets.push(wallet);
        std::mem::swap(&mut self.wallets, &mut wallets);
        Ok(pubkey)
    }

    /// The key pair kept under `name`.
    pub fn get_wallet(&self, name: &str) -> (result: Result<&Keypair, String>)
        ensures
            match result {
                Ok(keypair) => self.wallets().contains_key(name@) && *keypair
                    == self.wallets()[name@].keypair,
                Err(message) => !self.wallets().contains_key(name@) && message@
                    == not_found_message(name@),
            },
    {
        proof {
            use_type_invariant(self);
            lemma_by_name_entries(self.wallets@);
        }
        match self.position(name) {
            Some(at) => Ok(&self.wallets[at].keypair),
            None => Err(not_found(name)),
        }
    }

    /// The address of the wallet kept under `name`.
    pub fn get_pubkey(&self, name: &str) -> (result: Result<Pubkey, String>)
        ensures
            match result {
                Ok(pubkey) => self.wallets().contains_key(name@) && pubkey
                    == self.wallets()[name@].pubkey,
                Err(message) => !self.wallets().contains_key(name@) && message@
                    == not_found_message(name@),
            },
    {
        proof {
            use_type_invariant(self);
            lemma_by_name_entries(self.wallets@);
        }
        match self.position(name) {
            Some(at) => Ok(self.wallets[at].pubkey),
            None => Err(not_found(name)),
        }
    }

    /// Every wallet with its name and address, each once. The order is not
    /// part of the contract.
    pub fn list_wallets(&self) -> (listing: Vec<(String, Pubkey)>)
        ensures
            is_listing(listing@, self.wallets()),
    {
        proof {
            use_type_invariant(self);
            lemma_by_name_entries(self.wallets@);
        }
        let mut listing: Vec<(String, Pubkey)> = Vec::new();
        let mut at: usize = 0;
        while at < self.wallets.len()
            invariant
                at <= self.wallets@.len(),
                listing@.len() == at,
                forall|i: int|
                    0 <= i < at ==> (#[trigger] listing@[i]).0@ == self.wallets@[i].name()
                        && listing@[i].1 == self.wallets@[i].pubkey,
            decreases self.wallets@.len() - at,
        {
            listing.push((self.wallets[at].name.clone(), self.wallets[at].pubkey));
            at += 1;
        }
        proof {
            assert forall|i: int| 0 <= i < listing@.len() implies self.wallets().contains_key(
                (#[trigger] listing@[i]).0@,
            ) && self.wallets()[listing@[i].0@].pubkey == listing@[i].1 by {
                assert(self.wallets@[i].content().pubkey == listing@[i].1);
            }
            assert forall|i: int, j: int|
                0 <= i < j < listing@.len() implies (#[trigger] listing@[i]).0@
                != (#[trigger] listing@[j]).0@ by {
                assert(self.wallets@[i].name() != self.wallets@[j].name());
            }
        }
        listing
    }

    /// Forgets the wallet kept under `name`.
    pub fn remove_wallet(&mut self, name: &str) -> (result: Result<(), String>)
        ensures
            final(self).counter() == old(self).counter(),
            match result {
                Ok(_) => old(self).wallets().contains_key(name@) && final(self).wallets() == old(
                    self,
                ).wallets().remove(name@),
                Err(message) => !old(self).wallets().contains_key(name@) && message@
                    == not_found_message(name@) && final(self).wallets() == old(self).wallets(),
            },
    {
        proof {
            use_type_invariant(&*self);
        }
        match self.position(name) {
            Some(at) => {
                proof {
                    lemma_by_name_remove(self.wallets@, at as int);
                }
                let mut wallets: Vec<Wallet> = Vec::new();
                std::mem::swap(&mut self.wallets, &mut wallets);
                let _ = wallets.remove(at);
                std::mem::swap(&mut self.wallets, &mut wallets);
                Ok(())
            },
            None => Err(not_found(name)),
        }
    }

    /// The number of wallets the manager holds.
    pub fn wallet_count(&self) -> (count: usize)
        ensures
            count == self.wallets().dom().len(),
            self.wallets().dom().finite(),
    {
        proof {
            use_type_invariant(self);
            lemma_by_name_entries(self.wallets@);
        }
        self.wallets.len()
    }

    /// Generates `count` wallets named after `prefix` and numbered from
    /// `first`, one after another, and stops at the first name that is taken.
    fn generate_numbered(&mut self, prefix: &str, first: usize, count: usize) -> (result: Result<
        Vec<String>,
        String,
    >)
        requires
            first + count <= usize::MAX,
        ensures
            final(self).counter() == old(self).counter(),
            batch_outcome(
                old(self).wallets(),
                final(self).wallets(),
                prefix@,
                first as nat,
                count as nat,
                result,
            ),
    {
        let mut names: Vec<String> = Vec::new();
        let mut done: usize = 0;
        while done < count
            invariant
                done <= count,
                first + count <= usize::MAX,
                self.counter() == old(self).counter(),
                names@.len() == done,
                forall|i: int|
                    0 <= i < done ==> (#[trigger] names@[i])@ == batch_name(
                        prefix@,
                        (first + i) as nat,
                    ),
                forall|index: nat|
                    first <= index < first + done ==> !old(self).wallets().contains_key(
                        #[trigger] batch_name(prefix@, index),
                    ),
                self.wallets().dom() == old(self).wallets().dom().union(
                    batch_names(prefix@, first as nat, done as nat),
                ),
                forall|name: Seq<char>|
                    old(self).wallets().contains_key(name) ==> self.wallets()[name]
                        == #[trigger] old(self).wallets()[name],
            decreases count - done,
        {
            let name = batch_wallet_name(prefix, first + done);
            let ghost before = self.wallets();
            match self.generate_wallet(name.clone()) {
                Ok(_) => {
                    names.push(name);
                    proof {
                        lemma_batch_names_grow(prefix@, first as nat, done as nat);
                        assert(self.wallets().dom() =~= before.dom().insert(
                            batch_name(prefix@, (first + done) as nat),
                        ));
                    }
                    done += 1;
                },
                Err(message) => {
                    let result = Err(message);
                    proof {
                        lemma_batch_stops(
                            old(self).wallets(),
                            self.wallets(),
                            prefix@,
                            first as nat,
                            count as nat,
                            done as nat,
                            result,
                        );
                    }
                    return result;
                },
            }
        }
        Ok(names)
    }

    /// Generates `count` wallets named `prefix_0`, `prefix_1` and so on, in
    /// that order, and returns their names. Stops with an error at the first
    /// name that is taken; the wallets generated before it stay.
    pub fn batch_generate(&mut self, prefix: &str, count: usize) -> (result: Result<
        Vec<String>,
        String,
    >)
        ensures
            final(self).counter() == old(self).counter(),
            batch_outcome(
                old(self).wallets(),
                final(self).wallets(),
                prefix@,
                0,
                count as nat,
                result,
            ),
    {
        self.generate_numbered(prefix, 0, count)
    }

    /// Generates `count` wallets named `wallet_n`, `n` counting up from the
    /// manager's counter, and returns their names. On success the counter
    /// moves on by `count`. Stops with an error at the first name that is
    /// taken; the wallets generated before it stay and the counter does not
    /// move.
    pub fn batch_generate_auto_named(&mut self, count: usize) -> (result: Result<
        Vec<String>,
        String,
    >)
        requires
            old(self).counter() + count <= usize::MAX,
        ensures
            final(self).counter() == old(self).counter() + (if result.is_ok() {
                count as nat
            } else {
                0
            }),
            batch_outcome(
                old(self).wallets(),
                final(self).wallets(),
                auto_prefix(),
                old(self).counter(),
                count as nat,
                result,
            ),
    {
        proof {
            reveal_strlit("wallet");
            assert("wallet"@ =~= auto_prefix());
        }
        let first = self.counter;
        match self.generate_numbered("wallet", first, count) {
            Ok(names) => {
                proof {
                    use_type_invariant(&*self);
                }
                self.counter = first + count;
                Ok(names)
            },
            Err(message) => Err(message),
        }
    }

    /// The addresses of the named wallets, in the order of the names. Fails
    /// at the first name that is not known.
    pub fn batch_get_pubkeys(&self, wallet_names: &Vec<String>) -> (result: Result<
        Vec<(String, Pubkey)>,
        String,
    >)
        ensures
            match result {
                Ok(pairs) => {
                    &&& pairs@.len() == wallet_names@.len()
                    &&& forall|i: int|
                        0 <= i < pairs@.len() ==> {
                            &&& (#[trigger] pairs@[i]).0@ == wallet_names@[i]@
                            &&& self.wallets().contains_key(wallet_names@[i]@)
                            &&& pairs@[i].1 == self.wallets()[wallet_names@[i]@].pubkey
                        }
                },
                Err(message) => exists|missing: int|
                    {
                        &&& 0 <= missing < wallet_names@.len()
                        &&& !self.wallets().contains_key((#[trigger] wallet_names@[missing])@)
                        &&& message@ == not_found_message(wallet_names@[missing]@)
                        &&& forall|i: int|
                            0 <= i < missing ==> self.wallets().contains_key(
                                (#[trigger] wallet_names@[i])@,
                            )
                    },
            },
    {
        let mut pairs: Vec<(String, Pubkey)> = Vec::new();
        let mut at: usize = 0;
        while at < wallet_names.len()
            invariant
                at <= wallet_names@.len(),
                pairs@.len() == at,
                forall|i: int|
                    0 <= i < at ==> {
                        &&& (#[trigger] pairs@[i]).0@ == wallet_names@[i]@
                        &&& self.wallets().contains_key(wallet_names@[i]@)
                        &&& pairs@[i].1 == self.wallets()[wallet_names@[i]@].pubkey
                    },
                forall|i: int|
                    0 <= i < at ==> self.wallets().contains_key((#[trigger] wallet_names@[i])@),
            decreases wallet_names@.len() - at,
        {
            match self.get_pubkey(wallet_names[at].as_str()) {
                Ok(pubkey) => pairs.push((wallet_names[at].clone(), pubkey)),
                Err(message) => {
                    assert(!self.wallets().contains_key(wallet_names@[at as int]@));
                    return Err(message);
                },
            }
            at += 1;
        }
        Ok(pairs)
    }
}

} // verus!
