//! Instructions as the builder holds them: the program to run, the accounts
//! it touches and the data it is given; and what a message can hold of
//! them.

use solana_sdk::pubkey::Pubkey;
use vstd::prelude::*;

verus! {

/// An account that an instruction touches.
#[derive(Debug, Clone, PartialEq, Eq)]
pub struct AccountMeta {
    /// The address of the account.
    pub pubkey: Pubkey,
    /// Whether the transaction must carry a signature for the account.
    pub is_signer: bool,
    /// Whether the program may change the account.
    pub is_writable: bool,
}

/// One instruction of a transaction.
#[derive(Debug, Clone, PartialEq, Eq)]
pub struct Instruction {
    /// The address of the program that executes the instruction.
    pub program_id: Pubkey,
    /// The accounts the program is handed.
    pub accounts: Vec<AccountMeta>,
    /// What the program is told, in its own encoding.
    pub data: Vec<u8>,
}

/// The most keys a message can refer to: it refers to a key by its place
/// in a list, in one byte.
pub const MAX_KEYS: usize = 256;

/// The most keys of one kind, keys that sign or keys that are only read: the
/// header of a message counts each kind in one byte.
pub const MAX_KEYS_OF_A_KIND: usize = 255;

/// The most instructions in a message, accounts in an instruction and bytes
/// of data in an instruction: each of these lengths is encoded in 16 bits.
pub const MAX_ENCODED_LEN: usize = 65535;

/// The use that an instruction makes of its program: it names the key, asks
/// for no signature and changes nothing.
pub open spec fn program_use(program_id: Pubkey) -> AccountMeta {
    AccountMeta { pubkey: program_id, is_signer: false, is_writable: false }
}

/// Every place in which the instructions name a key, in order: for each
/// instruction its program, then its accounts.
pub open spec fn key_uses(instructions: Seq<Instruction>) -> Seq<AccountMeta>
    decreases instructions.len(),
{
    if instructions.len() == 0 {
        Seq::empty()
    } else {
        key_uses(instructions.drop_last()).push(program_use(instructions.last().program_id))
            + instructions.last().accounts@
    }
}

/// Whether the key is named in some place.
pub open spec fn names(uses: Seq<AccountMeta>, key: Pubkey) -> bool {
    exists|i: int| 0 <= i < uses.len() && (#[trigger] uses[i]).pubkey == key
}

/// Whether some place asks for the key's signature.
pub open spec fn signs(uses: Seq<AccountMeta>, key: Pubkey) -> bool {
    exists|i: int| 0 <= i < uses.len() && (#[trigger] uses[i]).pubkey == key && uses[i].is_signer
}

/// Whether some place lets the key's account be changed.
pub open spec fn writes(uses: Seq<AccountMeta>, key: Pubkey) -> bool {
    exists|i: int|
        0 <= i < uses.len() && (#[trigger] uses[i]).pubkey == key && uses[i].is_writable
}

/// The keys that a message lists: every key that is named, once.
pub open spec fn named_keys(uses: Seq<AccountMeta>) -> Set<Pubkey> {
    Set::new(|key: Pubkey| names(uses, key))
}

/// The keys whose signatures a message requires.
pub open spec fn signer_keys(uses: Seq<AccountMeta>) -> Set<Pubkey> {
    Set::new(|key: Pubkey| signs(uses, key))
}

/// The keys that a message lists as only read and not signing.
pub open spec fn read_only_keys(uses: Seq<AccountMeta>) -> Set<Pubkey> {
    Set::new(|key: Pubkey| names(uses, key) && !signs(uses, key) && !writes(uses, key))
}

/// Whether a message can hold the keys of the instructions: no more keys
/// than it can refer to, and of those that sign and of those that are only
/// read no more than its header can count.
pub open spec fn keys_fit(instructions: Seq<Instruction>) -> bool {
    &&& named_keys(key_uses(instructions)).len() <= MAX_KEYS
    &&& signer_keys(key_uses(instructions)).len() <= MAX_KEYS_OF_A_KIND
    &&& read_only_keys(key_uses(instructions)).len() <= MAX_KEYS_OF_A_KIND
}

/// Whether some instruction has more accounts than can be encoded.
pub open spec fn some_accounts_too_many(instructions: Seq<Instruction>) -> bool {
    exists|i: int|
        0 <= i < instructions.len() && (#[trigger] instructions[i]).accounts@.len()
            > MAX_ENCODED_LEN
}

/// Whether some instruction has more data than can be encoded.
pub open spec fn some_data_too_long(instructions: Seq<Instruction>) -> bool {
    exists|i: int|
        0 <= i < instructions.len() && (#[trigger] instructions[i]).data@.len() > MAX_ENCODED_LEN
}

/// Whether the instructions can be compiled into a message and the message
/// be encoded: every length can be encoded and the keys fit.
pub open spec fn fits_a_message(instructions: Seq<Instruction>) -> bool {
    &&& instructions.len() <= MAX_ENCODED_LEN
    &&& !some_accounts_too_many(instructions)
    &&& !some_data_too_long(instructions)
    &&& keys_fit(instructions)
}

/// The kinds of key that are counted.
pub enum KeyKind {
    Named,
    Signing,
    ReadOnly,
}

/// Whether an entry of a table of keys is of the given kind.
pub open spec fn of_kind(entry: AccountMeta, kind: KeyKind) -> bool {
    match kind {
        KeyKind::Named => true,
        KeyKind::Signing => entry.is_signer,
        KeyKind::ReadOnly => !entry.is_signer && !entry.is_writable,
    }
}

/// No key stands twice in the table.
pub open spec fn distinct_keys(table: Seq<AccountMeta>) -> bool {
    forall|i: int, j: int|
        0 <= i < j < table.len() ==> (#[trigger] table[i]).pubkey != (#[trigger] table[j]).pubkey
}

/// Whether the table sums the uses up: it holds each key that is named,
/// once, and says of each whether any use asks for its signature and
/// whether any use lets it be changed.
pub open spec fn sums_up(table: Seq<AccountMeta>, uses: Seq<AccountMeta>) -> bool {
    &&& distinct_keys(table)
    &&& forall|i: int|
        0 <= i < table.len() ==> {
            &&& names(uses, (#[trigger] table[i]).pubkey)
            &&& table[i].is_signer == signs(uses, table[i].pubkey)
            &&& table[i].is_writable == writes(uses, table[i].pubkey)
        }
    &&& forall|n: int| 0 <= n < uses.len() ==> names(table, (#[trigger] uses[n]).pubkey)
}

/// The number of entries of the given kind.
pub open spec fn count_of_kind(table: Seq<AccountMeta>, kind: KeyKind) -> nat
    decreases table.len(),
{
    if table.len() == 0 {
        0
    } else {
        count_of_kind(table.drop_last(), kind) + if of_kind(table.last(), kind) {
            1nat
        } else {
            0nat
        }
    }
}

/// The keys of the entries of the given kind.
pub open spec fn keys_of_kind(table: Seq<AccountMeta>, kind: KeyKind) -> Set<Pubkey> {
    Set::new(
        |key: Pubkey|
            exists|i: int|
                0 <= i < table.len() && (#[trigger] table[i]).pubkey == key && of_kind(
                    table[i],
                    kind,
                ),
    )
}

/// In a table without a key twice there are as many keys of a kind as
/// entries of that kind.
pub proof fn lemma_keys_of_kind_len(table: Seq<AccountMeta>, kind: KeyKind)
    requires
        distinct_keys(table),
    ensures
        keys_of_kind(table, kind).finite(),
        keys_of_kind(table, kind).len() == count_of_kind(table, kind),
        count_of_kind(table, kind) <= table.len(),
    decreases table.len(),
{
    if table.len() == 0 {
        assert(keys_of_kind(table, kind) =~= Set::<Pubkey>::empty());
    } else {
        let earlier = table.drop_last();
        let last = table.last();
        assert(distinct_keys(earlier)) by {
            assert forall|i: int, j: int|
                0 <= i < j < earlier.len() implies (#[trigger] earlier[i]).pubkey
                != (#[trigger] earlier[j]).pubkey by {
                assert(earlier[i] == table[i]);
                assert(earlier[j] == table[j]);
            }
        }
        lemma_keys_of_kind_len(earlier, kind);
        assert(!keys_of_kind(earlier, kind).contains(last.pubkey)) by {
            if keys_of_kind(earlier, kind).contains(last.pubkey) {
                let i = choose|i: int|
                    0 <= i < earlier.len() && (#[trigger] earlier[i]).pubkey == last.pubkey
                        && of_kind(earlier[i], kind);
                assert(table[i].pubkey == table[table.len() - 1].pubkey);
            }
        }
        let grown = if of_kind(last, kind) {
            keys_of_kind(earlier, kind).insert(last.pubkey)
        } else {
            keys_of_kind(earlier, kind)
        };
        assert forall|key: Pubkey| keys_of_kind(table, kind).contains(key) implies grown.contains(
            key,
        ) by {
            let i = choose|i: int|
                0 <= i < table.len() && (#[trigger] table[i]).pubkey == key && of_kind(
                    table[i],
                    kind,
                );
            if i < table.len() - 1 {
                assert(earlier[i] == table[i]);
            }
        }
        assert forall|key: Pubkey| grown.contains(key) implies keys_of_kind(table, kind).contains(
            key,
        ) by {
            if keys_of_kind(earlier, kind).contains(key) {
                let i = choose|i: int|
                    0 <= i < earlier.len() && (#[trigger] earlier[i]).pubkey == key && of_kind(
                        earlier[i],
                        kind,
                    );
                assert(table[i] == earlier[i]);
            } else {
                assert(table[table.len() - 1].pubkey == key);
            }
        }
        assert(keys_of_kind(table, kind) =~= grown);
    }
}

/// A table that sums the uses up holds the keys that a message lists, kind
/// by kind.
pub proof fn lemma_table_holds_the_keys(table: Seq<AccountMeta>, uses: Seq<AccountMeta>)
    requires
        sums_up(table, uses),
    ensures
        named_keys(uses) == keys_of_kind(table, KeyKind::Named),
        signer_keys(uses) == keys_of_kind(table, KeyKind::Signing),
        read_only_keys(uses) == keys_of_kind(table, KeyKind::ReadOnly),
{
    assert forall|key: Pubkey| names(uses, key) implies exists|i: int|
        0 <= i < table.len() && (#[trigger] table[i]).pubkey == key by {
        let n = choose|n: int| 0 <= n < uses.len() && (#[trigger] uses[n]).pubkey == key;
        assert(names(table, uses[n].pubkey));
    }
    assert forall|key: Pubkey|
        named_keys(uses).contains(key) == keys_of_kind(table, KeyKind::Named).contains(key) by {
        if names(uses, key) {
            let i = choose|i: int| 0 <= i < table.len() && (#[trigger] table[i]).pubkey == key;
            assert(of_kind(table[i], KeyKind::Named));
        }
    }
    assert forall|key: Pubkey|
        signer_keys(uses).contains(key) == keys_of_kind(table, KeyKind::Signing).contains(key) by {
        if signs(uses, key) {
            let n = choose|n: int|
                0 <= n < uses.len() && (#[trigger] uses[n]).pubkey == key && uses[n].is_signer;
            assert(names(uses, key));
            let i = choose|i: int| 0 <= i < table.len() && (#[trigger] table[i]).pubkey == key;
            assert(of_kind(table[i], KeyKind::Signing));
        }
    }
    assert forall|key: Pubkey|
        read_only_keys(uses).contains(key) == keys_of_kind(table, KeyKind::ReadOnly).contains(
            key,
        ) by {
        if names(uses, key) && !signs(uses, key) && !writes(uses, key) {
            let i = choose|i: int| 0 <= i < table.len() && (#[trigger] table[i]).pubkey == key;
            assert(of_kind(table[i], KeyKind::ReadOnly));
        }
    }
    assert(named_keys(uses) =~= keys_of_kind(table, KeyKind::Named));
    assert(signer_keys(uses) =~= keys_of_kind(table, KeyKind::Signing));
    assert(read_only_keys(uses) =~= keys_of_kind(table, KeyKind::ReadOnly));
}

/// One more use names its own key besides the keys named before, and asks
/// and allows what it asks and allows besides what was asked and allowed
/// before.
pub proof fn lemma_one_more_use(uses: Seq<AccountMeta>, next: AccountMeta, key: Pubkey)
    ensures
        names(uses.push(next), key) == (names(uses, key) || next.pubkey == key),
        signs(uses.push(next), key) == (signs(uses, key) || (next.pubkey == key
            && next.is_signer)),
        writes(uses.push(next), key) == (writes(uses, key) || (next.pubkey == key
            && next.is_writable)),
{
    let more = uses.push(next);
    if names(uses, key) {
        let i = choose|i: int| 0 <= i < uses.len() && (#[trigger] uses[i]).pubkey == key;
        assert(more[i] == uses[i]);
    }
    if signs(uses, key) {
        let i = choose|i: int|
            0 <= i < uses.len() && (#[trigger] uses[i]).pubkey == key && uses[i].is_signer;
        assert(more[i] == uses[i]);
    }
    if writes(uses, key) {
        let i = choose|i: int|
            0 <= i < uses.len() && (#[trigger] uses[i]).pubkey == key && uses[i].is_writable;
        assert(more[i] == uses[i]);
    }
    if next.pubkey == key {
        assert(more[uses.len() as int] == next);
    }
    if names(more, key) {
        let i = choose|i: int| 0 <= i < more.len() && (#[trigger] more[i]).pubkey == key;
        if i < uses.len() {
            assert(uses[i] == more[i]);
        }
    }
    if signs(more, key) {
        let i = choose|i: int|
            0 <= i < more.len() && (#[trigger] more[i]).pubkey == key && more[i].is_signer;
        if i < uses.len() {
            assert(uses[i] == more[i]);
        }
    }
    if writes(more, key) {
        let i = choose|i: int|
            0 <= i < more.len() && (#[trigger] more[i]).pubkey == key && more[i].is_writable;
        if i < uses.len() {
            assert(uses[i] == more[i]);
        }
    }
}

/// Every place in which the instructions name a key, in order.
pub fn key_uses_of(instructions: &Vec<Instruction>) -> (uses: Vec<AccountMeta>)
    ensures
        uses@ == key_uses(instructions@),
{
    let mut uses: Vec<AccountMeta> = Vec::new();
    let mut at: usize = 0;
    while at < instructions.len()
        invariant
            at <= instructions@.len(),
            uses@ == key_uses(instructions@.subrange(0, at as int)),
        decreases instructions@.len() - at,
    {
        let instruction = &instructions[at];
        uses.push(
            AccountMeta { pubkey: instruction.program_id, is_signer: false, is_writable: false },
        );
        let ghost base = uses@;
        let mut inner: usize = 0;
        while inner < instruction.accounts.len()
            invariant
                inner <= instruction.accounts@.len(),
                uses@ == base + instruction.accounts@.subrange(0, inner as int),
            decreases instruction.accounts@.len() - inner,
        {
            let account = &instruction.accounts[inner];
            uses.push(
                AccountMeta {
                    pubkey: account.pubkey,
                    is_signer: account.is_signer,
                    is_writable: account.is_writable,
                },
            );
            assert(uses@ =~= base + instruction.accounts@.subrange(0, inner + 1));
            inner += 1;
        }
        proof {
            let upto = instructions@.subrange(0, at + 1);
            assert(upto.drop_last() =~= instructions@.subrange(0, at as int));
            assert(upto.last() == instructions@[at as int]);
            assert(instruction.accounts@.subrange(0, inner as int) =~= instruction.accounts@);
        }
        at += 1;
    }
    proof {
        assert(instructions@.subrange(0, at as int) =~= instructions@);
    }
    uses
}

/// Where in the table the key stands.
fn position_of(table: &Vec<AccountMeta>, key: &Pubkey) -> (found: Option<usize>)
    ensures
        match found {
            Some(at) => at < table@.len() && table@[at as int].pubkey == *key,
            None => forall|i: int| 0 <= i < table@.len() ==> (#[trigger] table@[i]).pubkey != *key,
        },
{
    let mut at: usize = 0;
    while at < table.len()
        invariant
            at <= table@.len(),
            forall|i: int| 0 <= i < at ==> (#[trigger] table@[i]).pubkey != *key,
        decreases table@.len() - at,
    {
        if table[at].pubkey == *key {
            return Some(at);
        }
        at += 1;
    }
    None
}

/// The keys that are named are finitely many.
pub proof fn lemma_named_keys_finite(uses: Seq<AccountMeta>)
    ensures
        named_keys(uses).finite(),
    decreases uses.len(),
{
    if uses.len() == 0 {
        assert(named_keys(uses) =~= Set::<Pubkey>::empty());
    } else {
        let earlier = uses.drop_last();
        lemma_named_keys_finite(earlier);
        assert(uses =~= earlier.push(uses.last()));
        assert forall|key: Pubkey|
            named_keys(uses).contains(key) == named_keys(earlier).insert(
                uses.last().pubkey,
            ).contains(key) by {
            lemma_one_more_use(earlier, uses.last(), key);
        }
        assert(named_keys(uses) =~= named_keys(earlier).insert(uses.last().pubkey));
    }
}

/// The first uses name no more keys than all of them.
pub proof fn lemma_named_keys_grow(uses: Seq<AccountMeta>, upto: int)
    requires
        0 <= upto <= uses.len(),
    ensures
        named_keys(uses.subrange(0, upto)).len() <= named_keys(uses).len(),
{
    let first = uses.subrange(0, upto);
    lemma_named_keys_finite(uses);
    assert forall|key: Pubkey| named_keys(first).contains(key) implies named_keys(uses).contains(
        key,
    ) by {
        let i = choose|i: int| 0 <= i < first.len() && (#[trigger] first[i]).pubkey == key;
        assert(uses[i] == first[i]);
    }
    vstd::set_lib::lemma_len_subset(named_keys(first), named_keys(uses));
}

/// Sums the uses up in a table: one entry for each key that is named, which
/// says whether any use asks for its signature and whether any use lets it
/// be changed. Gives up with `None` as soon as more than `limit` keys are
/// named.
pub fn table_of_keys(uses: &Vec<AccountMeta>, limit: usize) -> (table: Option<Vec<AccountMeta>>)
    ensures
        match table {
            Some(table) => sums_up(table@, uses@) && table@.len() <= limit,
            None => named_keys(uses@).len() > limit,
        },
{
    let mut table: Vec<AccountMeta> = Vec::new();
    let mut at: usize = 0;
    while at < uses.len()
        invariant
            at <= uses@.len(),
            sums_up(table@, uses@.subrange(0, at as int)),
            table@.len() <= limit,
        decreases uses@.len() - at,
    {
        let ghost seen = uses@.subrange(0, at as int);
        let ghost before = table@;
        let next = &uses[at];
        proof {
            assert(uses@.subrange(0, at + 1) =~= seen.push(*next));
            assert forall|key: Pubkey|
                names(seen.push(*next), key) == (names(seen, key) || next.pubkey == key)
                && signs(seen.push(*next), key) == (signs(seen, key) || (next.pubkey == key
                    && next.is_signer))
                && writes(seen.push(*next), key) == (writes(seen, key) || (next.pubkey == key
                    && next.is_writable)) by {
                lemma_one_more_use(seen, *next, key);
            }
        }
        match position_of(&table, &next.pubkey) {
            Some(held) => {
                let entry = AccountMeta {
                    pubkey: next.pubkey,
                    is_signer: table[held].is_signer || next.is_signer,
                    is_writable: table[held].is_writable || next.is_writable,
                };
                table.set(held, entry);
                proof {
                    lemma_entry_merged(before, seen, *next, held as int, table@);
                }
            },
            None => {
                proof {
                    if names(seen, next.pubkey) {
                        let n = choose|n: int|
                            0 <= n < seen.len() && (#[trigger] seen[n]).pubkey == next.pubkey;
                        assert(names(before, seen[n].pubkey));
                        let i = choose|i: int|
                            0 <= i < before.len() && (#[trigger] before[i]).pubkey
                                == next.pubkey;
                        assert(false);
                    }
                }
                table.push(
                    AccountMeta {
                        pubkey: next.pubkey,
                        is_signer: next.is_signer,
                        is_writable: next.is_writable,
                    },
                );
                proof {
                    lemma_entry_added(before, seen, *next, table@);
                }
                if table.len() > limit {
                    proof {
                        lemma_table_holds_the_keys(table@, uses@.subrange(0, at + 1));
                        lemma_keys_of_kind_len(table@, KeyKind::Named);
                        lemma_all_are_named(table@);
                        lemma_named_keys_grow(uses@, at + 1);
                    }
                    return None;
                }
            },
        }
        at += 1;
    }
    proof {
        assert(uses@.subrange(0, at as int) =~= uses@);
    }
    Some(table)
}

/// A table stays a summing up when the entry of a key takes in one more use
/// of that key.
proof fn lemma_entry_merged(
    before: Seq<AccountMeta>,
    seen: Seq<AccountMeta>,
    next: AccountMeta,
    held: int,
    after: Seq<AccountMeta>,
)
    requires
        sums_up(before, seen),
        0 <= held < before.len(),
        before[held].pubkey == next.pubkey,
        after == before.update(
            held,
            AccountMeta {
                pubkey: next.pubkey,
                is_signer: before[held].is_signer || next.is_signer,
                is_writable: before[held].is_writable || next.is_writable,
            },
        ),
    ensures
        sums_up(after, seen.push(next)),
{
    let more = seen.push(next);
    assert forall|i: int, j: int|
        0 <= i < j < after.len() implies (#[trigger] after[i]).pubkey
        != (#[trigger] after[j]).pubkey by {
        assert(after[i].pubkey == before[i].pubkey);
        assert(after[j].pubkey == before[j].pubkey);
    }
    assert forall|i: int| 0 <= i < after.len() implies names(more, (#[trigger] after[i]).pubkey)
        && after[i].is_signer == signs(more, after[i].pubkey) && after[i].is_writable == writes(
        more,
        after[i].pubkey,
    ) by {
        lemma_one_more_use(seen, next, after[i].pubkey);
        assert(after[i].pubkey == before[i].pubkey);
        if i != held {
            assert(after[i] == before[i]);
            assert(before[i].pubkey != before[held].pubkey);
        }
    }
    assert forall|n: int| 0 <= n < more.len() implies names(
        after,
        (#[trigger] more[n]).pubkey,
    ) by {
        if n < seen.len() {
            assert(more[n] == seen[n]);
            assert(names(before, seen[n].pubkey));
            let i = choose|i: int|
                0 <= i < before.len() && (#[trigger] before[i]).pubkey == seen[n].pubkey;
            assert(after[i].pubkey == before[i].pubkey);
        } else {
            assert(after[held].pubkey == more[n].pubkey);
        }
    }
}

/// A table stays a summing up when a key that was not named before gets an
/// entry for its first use.
proof fn lemma_entry_added(
    before: Seq<AccountMeta>,
    seen: Seq<AccountMeta>,
    next: AccountMeta,
    after: Seq<AccountMeta>,
)
    requires
        sums_up(before, seen),
        !names(seen, next.pubkey),
        forall|i: int| 0 <= i < before.len() ==> (#[trigger] before[i]).pubkey != next.pubkey,
        after == before.push(
            AccountMeta {
                pubkey: next.pubkey,
                is_signer: next.is_signer,
                is_writable: next.is_writable,
            },
        ),
    ensures
        sums_up(after, seen.push(next)),
{
    let more = seen.push(next);
    assert(!signs(seen, next.pubkey) && !writes(seen, next.pubkey)) by {
        if signs(seen, next.pubkey) {
            let i = choose|i: int|
                0 <= i < seen.len() && (#[trigger] seen[i]).pubkey == next.pubkey
                    && seen[i].is_signer;
            assert(names(seen, next.pubkey));
        }
        if writes(seen, next.pubkey) {
            let i = choose|i: int|
                0 <= i < seen.len() && (#[trigger] seen[i]).pubkey == next.pubkey
                    && seen[i].is_writable;
            assert(names(seen, next.pubkey));
        }
    }
    assert forall|i: int, j: int|
        0 <= i < j < after.len() implies (#[trigger] after[i]).pubkey
        != (#[trigger] after[j]).pubkey by {
        assert(after[i] == before[i]);
        if j < before.len() {
            assert(after[j] == before[j]);
        }
    }
    assert forall|i: int| 0 <= i < after.len() implies names(more, (#[trigger] after[i]).pubkey)
        && after[i].is_signer == signs(more, after[i].pubkey) && after[i].is_writable == writes(
        more,
        after[i].pubkey,
    ) by {
        lemma_one_more_use(seen, next, after[i].pubkey);
        if i < before.len() {
            assert(after[i] == before[i]);
        }
    }
    assert forall|n: int| 0 <= n < more.len() implies names(
        after,
        (#[trigger] more[n]).pubkey,
    ) by {
        if n < seen.len() {
            assert(more[n] == seen[n]);
            assert(names(before, seen[n].pubkey));
            let i = choose|i: int|
                0 <= i < before.len() && (#[trigger] before[i]).pubkey == seen[n].pubkey;
            assert(after[i] == before[i]);
        } else {
            assert(after[before.len() as int].pubkey == more[n].pubkey);
        }
    }
}

/// Counts the entries that ask for a signature and the entries that are
/// only read.
fn count_kinds(table: &Vec<AccountMeta>) -> (counts: (usize, usize))
    ensures
        counts.0 == count_of_kind(table@, KeyKind::Signing),
        counts.1 == count_of_kind(table@, KeyKind::ReadOnly),
{
    let mut signing: usize = 0;
    let mut read_only: usize = 0;
    let mut at: usize = 0;
    while at < table.len()
        invariant
            at <= table@.len(),
            signing == count_of_kind(table@.subrange(0, at as int), KeyKind::Signing),
            read_only == count_of_kind(table@.subrange(0, at as int), KeyKind::ReadOnly),
            signing <= at,
            read_only <= at,
        decreases table@.len() - at,
    {
        proof {
            assert(table@.subrange(0, at + 1).drop_last() =~= table@.subrange(0, at as int));
            assert(table@.subrange(0, at + 1).last() == table@[at as int]);
        }
        if table[at].is_signer {
            signing += 1;
        } else if !table[at].is_writable {
            read_only += 1;
        }
        at += 1;
    }
    proof {
        assert(table@.subrange(0, at as int) =~= table@);
    }
    (signing, read_only)
}

/// Whether a message can hold the keys of the instructions.
pub fn keys_fit_a_message(instructions: &Vec<Instruction>) -> (fit: bool)
    ensures
        fit == keys_fit(instructions@),
{
    let uses = key_uses_of(instructions);
    match table_of_keys(&uses, MAX_KEYS) {
        None => false,
        Some(table) => {
            let (signing, read_only) = count_kinds(&table);
            proof {
                lemma_table_holds_the_keys(table@, uses@);
                lemma_keys_of_kind_len(table@, KeyKind::Named);
                lemma_keys_of_kind_len(table@, KeyKind::Signing);
                lemma_keys_of_kind_len(table@, KeyKind::ReadOnly);
                lemma_all_are_named(table@);
            }
            signing <= MAX_KEYS_OF_A_KIND && read_only <= MAX_KEYS_OF_A_KIND
        },
    }
}

/// Every entry of a table is an entry for a named key.
proof fn lemma_all_are_named(table: Seq<AccountMeta>)
    ensures
        count_of_kind(table, KeyKind::Named) == table.len(),
    decreases table.len(),
{
    if table.len() > 0 {
        lemma_all_are_named(table.drop_last());
    }
}

} // verus!
