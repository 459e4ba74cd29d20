//! Business accounts and their balances.
use vstd::prelude::*;
use vstd::string::*;
use crate::clock::{now_micros, CLOCK_LIMIT_MICROS};
use crate::encoding::{cents_text, is_cents_form, law_cents_text_reads_back, push_cents, push_char, read_cents};

verus! {

/// An account, as stored. Its balance is in cents and never below zero.
#[derive(Debug, Clone)]
pub struct Account {
    pub id: u128,
    pub api_key_id: u128,
    pub name: String,
    pub balance_cents: i64,
    pub currency: String,
    pub is_active: bool,
    pub created_at: i64,
    pub updated_at: i64,
}

/// A request to open an account.
#[derive(Debug)]
pub struct CreateAccount {
    pub name: String,
    pub currency: String,
}

/// The currency of an account when none is named: "USD".
pub fn default_currency() -> (currency: String)
    ensures
        currency@ == "USD"@,
{
    String::from_str("USD")
}

/// A name has between 1 and 255 characters.
pub open spec fn name_is_valid(name: Seq<char>) -> bool {
    1 <= name.len() <= 255
}

/// A currency code has the shape of an ISO 4217 code: three capital
/// letters A to Z.
pub open spec fn currency_is_valid(currency: Seq<char>) -> bool {
    &&& currency.len() == 3
    &&& forall|i: int| 0 <= i < 3 ==> 'A' <= #[trigger] currency[i] <= 'Z'
}

fn is_capital(c: char) -> (capital: bool)
    ensures
        capital == ('A' <= c <= 'Z'),
{
    'A' <= c && c <= 'Z'
}

fn currency_code_ok(currency: &str) -> (ok: bool)
    ensures
        ok == currency_is_valid(currency@),
{
    if currency.unicode_len() != 3 {
        return false;
    }
    let first = is_capital(currency.get_char(0));
    let second = is_capital(currency.get_char(1));
    let third = is_capital(currency.get_char(2));
    proof {
        if first && second && third {
            assert forall|i: int| 0 <= i < 3 implies 'A' <= #[trigger] currency@[i] <= 'Z' by {
                if i == 1 {
                } else if i == 2 {
                }
            }
        }
    }
    first && second && third
}

impl CreateAccount {
    /// Field validation. Each failed field gives a line with its name and
    /// message; the name's line comes first when both fail.
    pub fn validate(&self) -> (result: Result<(), String>)
        ensures
            result is Ok <==> name_is_valid(self.name@) && currency_is_valid(self.currency@),
            result matches Err(message) ==> message@ == if !name_is_valid(self.name@) {
                if currency_is_valid(self.currency@) {
                    "name: Name must be between 1 and 255 characters"@
                } else {
                    "name: Name must be between 1 and 255 characters\ncurrency: Currency must be a 3-letter ISO code"@
                }
            } else {
                "currency: Currency must be a 3-letter ISO code"@
            },
    {
        let name_length = self.name.as_str().unicode_len();
        let name_ok = 1 <= name_length && name_length <= 255;
        let currency_ok = currency_code_ok(self.currency.as_str());
        if name_ok && currency_ok {
            Ok(())
        } else if !name_ok && currency_ok {
            Err(String::from_str("name: Name must be between 1 and 255 characters"))
        } else if !name_ok {
            Err(
                String::from_str(
                    "name: Name must be between 1 and 255 characters\ncurrency: Currency must be a 3-letter ISO code",
                ),
            )
        } else {
            Err(String::from_str("currency: Currency must be a 3-letter ISO code"))
        }
    }
}

/// A balance written for people: the amount with two decimals, a space and
/// the currency, such as "1000.00 USD".
pub open spec fn balance_text(balance_cents: i64, currency: Seq<char>) -> Seq<char> {
    cents_text(balance_cents as int) + seq![' '] + currency
}

/// A formatted balance reads back as the balance: the text before the last
/// space is "[-]units.dd" and reads as exactly the balance in cents, and
/// the text after it is the currency.
pub proof fn law_balance_text_reads_back(balance_cents: i64, currency: Seq<char>)
    ensures
        ({
            let text = balance_text(balance_cents, currency);
            let space = text.len() - currency.len() - 1;
            &&& 0 <= space < text.len()
            &&& text[space] == ' '
            &&& text.skip(space + 1) == currency
            &&& is_cents_form(text.take(space))
            &&& read_cents(text.take(space)) == balance_cents
        }),
{
    law_cents_text_reads_back(balance_cents as int);
    let text = balance_text(balance_cents, currency);
    let amount = cents_text(balance_cents as int);
    let space = text.len() - currency.len() - 1;
    assert(space == amount.len());
    assert(text.take(space) =~= amount);
    assert(text.skip(space + 1) =~= currency);
}

/// A name is accepted exactly when it has from 1 to 255 characters (not
/// bytes): the empty name and any longer one are refused.
pub proof fn law_account_name_lengths(name: Seq<char>)
    ensures
        name_is_valid(name) <==> 1 <= name.len() <= 255,
{
}

/// Every code of three capital letters 'A' to 'Z' is accepted, and nothing
/// else: a code of another length, or holding any other character, is
/// refused.
pub proof fn law_currency_codes(c0: char, c1: char, c2: char, other: Seq<char>)
    ensures
        ('A' <= c0 <= 'Z' && 'A' <= c1 <= 'Z' && 'A' <= c2 <= 'Z') <==> currency_is_valid(seq![c0, c1, c2]),
        other.len() != 3 ==> !currency_is_valid(other),
{
    let code = seq![c0, c1, c2];
    if currency_is_valid(code) {
        assert(code[0] == c0 && code[1] == c1 && code[2] == c2);
    }
    if 'A' <= c0 <= 'Z' && 'A' <= c1 <= 'Z' && 'A' <= c2 <= 'Z' {
        assert forall|i: int| 0 <= i < 3 implies 'A' <= #[trigger] code[i] <= 'Z' by {
            if i == 0 {
            } else if i == 1 {
            } else {
            }
        }
    }
}

fn format_balance(balance_cents: i64, currency: &str) -> (text: String)
    ensures
        text@ == balance_text(balance_cents, currency@),
{
    let mut text = String::new();
    push_cents(&mut text, balance_cents);
    push_char(&mut text, ' ');
    text.append(currency);
    assert(text@ =~= balance_text(balance_cents, currency@));
    text
}

/// An account as the API shows it.
#[derive(Debug)]
pub struct AccountResponse {
    pub id: u128,
    pub name: String,
    pub balance_cents: i64,
    pub balance_formatted: String,
    pub currency: String,
    pub is_active: bool,
    pub created_at: i64,
    pub updated_at: i64,
}

impl AccountResponse {
    /// The API's view of an account: its fields, and its balance written for
    /// people.
    pub fn from(account: Account) -> (response: AccountResponse)
        ensures
            response.id == account.id,
            response.name == account.name,
            response.balance_cents == account.balance_cents,
            response.balance_formatted@ == balance_text(account.balance_cents, account.currency@),
            response.currency == account.currency,
            response.is_active == account.is_active,
            response.created_at == account.created_at,
            response.updated_at == account.updated_at,
    {
        let balance_formatted = format_balance(account.balance_cents, account.currency.as_str());
        AccountResponse {
            id: account.id,
            name: account.name,
            balance_cents: account.balance_cents,
            balance_formatted,
            currency: account.currency,
            is_active: account.is_active,
            created_at: account.created_at,
            updated_at: account.updated_at,
        }
    }
}

/// An account's balance, as of a time.
#[derive(Debug)]
pub struct BalanceResponse {
    pub account_id: u128,
    pub balance_cents: i64,
    pub balance_formatted: String,
    pub currency: String,
    pub as_of: i64,
}

impl BalanceResponse {
    /// The balance of an account as of `as_of`.
    pub fn at(account: Account, as_of: i64) -> (response: BalanceResponse)
        ensures
            response.account_id == account.id,
            response.balance_cents == account.balance_cents,
            response.balance_formatted@ == balance_text(account.balance_cents, account.currency@),
            response.currency == account.currency,
            response.as_of == as_of,
    {
        let balance_formatted = format_balance(account.balance_cents, account.currency.as_str());
        BalanceResponse {
            account_id: account.id,
            balance_cents: account.balance_cents,
            balance_formatted,
            currency: account.currency,
            as_of,
        }
    }

    /// The balance of an account as of now.
    pub fn from(account: Account) -> (response: BalanceResponse)
        ensures
            -CLOCK_LIMIT_MICROS <= response.as_of <= CLOCK_LIMIT_MICROS,
            response.account_id == account.id,
            response.balance_cents == account.balance_cents,
            response.balance_formatted@ == balance_text(account.balance_cents, account.currency@),
            response.currency == account.currency,
    {
        let as_of = now_micros();
        BalanceResponse::at(account, as_of)
    }
}

} // verus!
