//! The function table: the messages that a manager can send, found by command word.

use vstd::prelude::*;
use crate::message1553::{Message1553, MessageView};

verus! {

broadcast use vstd::string::to_string_from_display_ensures_for_str;

/// The character of a decimal digit.
pub open spec fn digit_char(d: nat) -> char {
    (d + 48) as char
}

/// The decimal digits of `n`, most significant first, without sign or padding.
pub open spec fn decimal_chars(n: nat) -> Seq<char>
    decreases n,
{
    if n < 10 {
        seq![digit_char(n)]
    } else {
        decimal_chars(n / 10).push(digit_char(n % 10))
    }
}

/// `u16::to_string` (std's `Display` for integers): the decimal digits of the value, most
/// significant first, with no sign and no padding.
#[verifier::external_body]
fn u16_to_string(n: u16) -> (s: String)
    ensures
        s@ == decimal_chars(n as nat),
{
    n.to_string()
}

/// Every decimal text has at least one digit, and each of its characters is a digit.
pub proof fn lemma_decimal_chars_digits(n: nat)
    ensures
        decimal_chars(n).len() >= 1,
        n >= 10 ==> decimal_chars(n).len() >= 2,
        forall|k: int| 0 <= k < decimal_chars(n).len() ==> '0' <= #[trigger] decimal_chars(n)[k] <= '9',
    decreases n,
{
    if n >= 10 {
        lemma_decimal_chars_digits(n / 10);
    }
}

/// Two numbers with the same decimal text are the same number: a command names at most
/// one command word.
pub proof fn law_decimal_chars_injective(a: nat, b: nat)
    requires
        decimal_chars(a) == decimal_chars(b),
    ensures
        a == b,
    decreases a,
{
    lemma_decimal_chars_digits(a);
    lemma_decimal_chars_digits(b);
    if a < 10 && b < 10 {
        assert(decimal_chars(a)[0] == digit_char(a));
        assert(decimal_chars(b)[0] == digit_char(b));
    } else if a >= 10 && b >= 10 {
        let sa = decimal_chars(a);
        assert(sa.last() == digit_char(a % 10));
        assert(decimal_chars(b).last() == digit_char(b % 10));
        assert(sa.drop_last() == decimal_chars(a / 10));
        assert(decimal_chars(b).drop_last() == decimal_chars(b / 10));
        law_decimal_chars_injective(a / 10, b / 10);
    }
}

/// The views of a sequence of messages.
pub open spec fn message_views(s: Seq<Message1553>) -> Seq<MessageView> {
    s.map_values(|m: Message1553| m@)
}

/// Message `i` of `fns` answers `command`: its command word, in decimal, is `command`.
pub open spec fn answers(fns: Seq<MessageView>, i: int, command: Seq<char>) -> bool {
    decimal_chars(fns[i].command_word as nat) == command
}

/// Index `i` is the first of `fns` that answers `command`.
pub open spec fn first_answer(fns: Seq<MessageView>, i: int, command: Seq<char>) -> bool {
    &&& 0 <= i < fns.len()
    &&& answers(fns, i, command)
    &&& forall|j: int| 0 <= j < i ==> !answers(fns, j, command)
}

/// A table of messages.
#[derive(Clone, Default)]
pub struct Functions {
    functions: Vec<Message1553>,
}

impl View for Functions {
    type V = Seq<MessageView>;

    closed spec fn view(&self) -> Seq<MessageView> {
        message_views(self.functions@)
    }
}

impl Functions {
    /// A table holding these messages, in this order.
    pub fn from_messages(functions: Vec<Message1553>) -> (r: Functions)
        ensures
            r@ == message_views(functions@),
    {
        Functions { functions }
    }

    /// The messages of the table, in order.
    pub fn functions(self) -> (r: Vec<Message1553>)
        ensures
            message_views(r@) == self@,
    {
        let r = self.functions.clone();
        assert(message_views(r@) =~= self@);
        r
    }

    /// The first message whose command word, written in decimal, is `command`; `None`
    /// when there is none.
    pub fn find_function(&self, command: &str) -> (r: Option<Message1553>)
        ensures
            r is None <==> forall|i: int| 0 <= i < self@.len() ==> !answers(self@, i, command@),
            r matches Some(m) ==> exists|i: int|
                first_answer(self@, i, command@) && m@ == #[trigger] self@[i],
            r matches Some(m) ==> decimal_chars(m@.command_word as nat) == command@,
            r matches Some(m) ==> exists|i: int|
                0 <= i < self@.len() && m@ == #[trigger] self@[i] && forall|j: int|
                    0 <= j < i ==> decimal_chars((#[trigger] self@[j]).command_word as nat) != command@,
            r is None <==> forall|i: int|
                0 <= i < self@.len() ==> decimal_chars((#[trigger] self@[i]).command_word as nat)
                    != command@,
    {
        let wanted: String = command.to_string();
        let mut i: usize = 0;
        while i < self.functions.len()
            invariant
                wanted@ == command@,
                i <= self.functions@.len(),
                self@ == message_views(self.functions@),
                forall|j: int| 0 <= j < i ==> !answers(self@, j, command@),
                forall|j: int|
                    0 <= j < i ==> decimal_chars((#[trigger] self@[j]).command_word as nat) != command@,
            decreases self.functions.len() - i,
        {
            let ele: Message1553 = self.functions[i].clone();
            let word: u16 = ele.get_command_word();
            let text: String = u16_to_string(word);
            if text == wanted {
                let found = self.functions[i].clone();
                assert(first_answer(self@, i as int, command@));
                return Some(found);
            }
            i = i + 1;
        }
        None
    }

    /// The first message whose command word, written in decimal, is `command`; the table
    /// must hold one.
    pub fn call_function(&self, command: &str) -> (r: Message1553)
        requires
            exists|i: int| 0 <= i < self@.len() && answers(self@, i, command@),
        ensures
            exists|i: int| first_answer(self@, i, command@) && r@ == #[trigger] self@[i],
            decimal_chars(r@.command_word as nat) == command@,
            exists|i: int|
                0 <= i < self@.len() && r@ == #[trigger] self@[i] && forall|j: int|
                    0 <= j < i ==> decimal_chars((#[trigger] self@[j]).command_word as nat) != command@,
    {
        match self.find_function(command) {
            Some(m) => m,
            None => {
                assert(false);
                Message1553::default()
            },
        }
    }
}

} // verus!
