//! Names of wallets that are generated in batches, and the messages of the
//! errors that name a wallet.

use vstd::prelude::*;
use vstd::string::StringExecFns;

verus! {

/// The decimal digit for a number below ten.
pub open spec fn digit(value: nat) -> char {
    if value == 0 {
        '0'
    } else if value == 1 {
        '1'
    } else if value == 2 {
        '2'
    } else if value == 3 {
        '3'
    } else if value == 4 {
        '4'
    } else if value == 5 {
        '5'
    } else if value == 6 {
        '6'
    } else if value == 7 {
        '7'
    } else if value == 8 {
        '8'
    } else {
        '9'
    }
}

/// A number written in decimal, without leading zeros.
pub open spec fn decimal(number: nat) -> Seq<char>
    decreases number,
{
    if number < 10 {
        seq![digit(number)]
    } else {
        decimal(number / 10).push(digit(number % 10))
    }
}

/// The name of the wallet with the given number in a batch: the prefix, an
/// underscore and the number in decimal.
pub open spec fn batch_name(prefix: Seq<char>, index: nat) -> Seq<char> {
    prefix + seq!['_'] + decimal(index)
}

/// The names of a run of `count` wallets of a batch, the first of them
/// numbered `first`.
pub open spec fn batch_names(prefix: Seq<char>, first: nat, count: nat) -> Set<Seq<char>> {
    Set::new(
        |name: Seq<char>|
            exists|index: nat|
                first <= index < first + count && name == #[trigger] batch_name(prefix, index),
    )
}

/// The prefix of wallets that are named automatically.
pub open spec fn auto_prefix() -> Seq<char> {
    seq!['w', 'a', 'l', 'l', 'e', 't']
}

/// The message of the error for a name that is taken.
pub open spec fn already_exists_message(name: Seq<char>) -> Seq<char> {
    "Wallet '"@ + name + "' already exists"@
}

/// The message of the error for a name that is not known.
pub open spec fn not_found_message(name: Seq<char>) -> Seq<char> {
    "Wallet '"@ + name + "' not found"@
}

/// Different numbers are written differently.
pub proof fn lemma_decimal_injective(a: nat, b: nat)
    requires
        decimal(a) == decimal(b),
    ensures
        a == b,
    decreases a,
{
    if a < 10 && b < 10 {
        assert(decimal(a)[0] == digit(a));
        assert(decimal(b)[0] == digit(b));
    } else if a < 10 {
        assert(decimal(b).len() == decimal(b / 10).len() + 1);
        lemma_decimal_not_empty(b / 10);
    } else if b < 10 {
        assert(decimal(a).len() == decimal(a / 10).len() + 1);
        lemma_decimal_not_empty(a / 10);
    } else {
        assert(decimal(a).drop_last() =~= decimal(a / 10));
        assert(decimal(b).drop_last() =~= decimal(b / 10));
        assert(decimal(a).last() == digit(a % 10));
        assert(decimal(b).last() == digit(b % 10));
        lemma_decimal_injective(a / 10, b / 10);
        assert(a % 10 == b % 10);
        assert(a == 10 * (a / 10) + a % 10);
        assert(b == 10 * (b / 10) + b % 10);
    }
}

/// Every number is written with at least one digit.
pub proof fn lemma_decimal_not_empty(number: nat)
    ensures
        decimal(number).len() >= 1,
    decreases number,
{
    if number >= 10 {
        lemma_decimal_not_empty(number / 10);
    }
}

/// Wallets with different numbers in a batch have different names.
pub proof fn lemma_batch_name_injective(prefix: Seq<char>, a: nat, b: nat)
    requires
        batch_name(prefix, a) == batch_name(prefix, b),
    ensures
        a == b,
{
    let head = prefix + seq!['_'];
    assert(batch_name(prefix, a).subrange(head.len() as int, batch_name(prefix, a).len() as int)
        =~= decimal(a));
    assert(batch_name(prefix, b).subrange(head.len() as int, batch_name(prefix, b).len() as int)
        =~= decimal(b));
    lemma_decimal_injective(a, b);
}

/// The text of one decimal digit.
fn digit_text(value: usize) -> (text: &'static str)
    requires
        value < 10,
    ensures
        text@ == seq![digit(value as nat)],
{
    proof {
        reveal_strlit("0");
        reveal_strlit("1");
        reveal_strlit("2");
        reveal_strlit("3");
        reveal_strlit("4");
        reveal_strlit("5");
        reveal_strlit("6");
        reveal_strlit("7");
        reveal_strlit("8");
        reveal_strlit("9");
    }
    let text = if value == 0 {
        "0"
    } else if value == 1 {
        "1"
    } else if value == 2 {
        "2"
    } else if value == 3 {
        "3"
    } else if value == 4 {
        "4"
    } else if value == 5 {
        "5"
    } else if value == 6 {
        "6"
    } else if value == 7 {
        "7"
    } else if value == 8 {
        "8"
    } else {
        "9"
    };
    assert(text@ =~= seq![digit(value as nat)]);
    text
}

/// Writes a number in decimal at the end of a text.
fn append_decimal(text: &mut String, number: usize)
    ensures
        final(text)@ == old(text)@ + decimal(number as nat),
    decreases number,
{
    if number >= 10 {
        append_decimal(text, number / 10);
    }
    text.append(digit_text(number % 10));
    assert(text@ =~= old(text)@ + decimal(number as nat));
}

/// The name of the wallet with the given number in a batch.
pub fn batch_wallet_name(prefix: &str, index: usize) -> (name: String)
    ensures
        name@ == batch_name(prefix@, index as nat),
{
    proof {
        reveal_strlit("_");
    }
    let mut name = String::from_str(prefix);
    name.append("_");
    append_decimal(&mut name, index);
    assert(name@ =~= batch_name(prefix@, index as nat));
    name
}

/// The error for a name that is taken.
pub fn already_exists(name: &str) -> (message: String)
    ensures
        message@ == already_exists_message(name@),
{
    let mut message = String::from_str("Wallet '");
    message.append(name);
    message.append("' already exists");
    message
}

/// The error for a name that is not known.
pub fn not_found(name: &str) -> (message: String)
    ensures
        message@ == not_found_message(name@),
{
    let mut message = String::from_str("Wallet '");
    message.append(name);
    message.append("' not found");
    message
}

} // verus!
