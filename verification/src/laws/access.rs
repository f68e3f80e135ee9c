//! The port, the shared secret, and who is let through.

use vstd::prelude::*;

use crate::access::{passes, port_of, token_of};
use crate::laws::texts::{
    all_white, law_blank_texts_are_white, law_other_texts_are_no_numbers,
    law_trimming_leaves_the_text, law_unsigned_numbers_are_read, tidy,
};
use crate::text::{decimal_of, trimmed};

verus! {

/// The port is the number that the environment names, with or without white space round it.
pub proof fn law_ports_are_read(before: Seq<char>, n: u16, after: Seq<char>)
    requires
        all_white(before),
        all_white(after),
    ensures
        port_of(Some(before + decimal_of(n as nat) + after)) == n,
{
    law_unsigned_numbers_are_read(n as nat, u16::MAX as nat);
    lemma_numerals_are_tidy(n as nat);
    law_trimming_leaves_the_text(before, decimal_of(n as nat), after);
}

proof fn lemma_numerals_are_tidy(n: nat)
    ensures
        tidy(decimal_of(n)),
    decreases n,
{
    let s = decimal_of(n);
    if n >= 10 {
        lemma_numerals_are_tidy(n / 10);
        assert(s[0] == decimal_of(n / 10)[0]);
    }
}

/// Without a number that can be read, the port is 7997.
pub proof fn law_the_port_has_a_default(s: Seq<char>, i: int)
    ensures
        port_of(None) == 7997,
        trimmed(s).len() == 0 ==> port_of(Some(s)) == 7997,
        (0 <= i < trimmed(s).len() && !('0' <= trimmed(s)[i] <= '9') && (i > 0 || trimmed(s)[i]
            != '+')) ==> port_of(Some(s)) == 7997,
{
    if 0 <= i < trimmed(s).len() && !('0' <= trimmed(s)[i] <= '9') && (i > 0 || trimmed(s)[i]
        != '+') {
        law_other_texts_are_no_numbers(trimmed(s), u16::MAX as nat, i);
    }
}

/// A number past the last port is not read.
pub proof fn law_numbers_past_the_last_port_are_no_ports(n: nat)
    requires
        n > 65_535,
    ensures
        port_of(Some(decimal_of(n))) == 7997,
{
    law_unsigned_numbers_are_read(n, u16::MAX as nat);
    lemma_numerals_are_tidy(n);
    let none = Seq::<char>::empty();
    law_trimming_leaves_the_text(none, decimal_of(n), none);
    assert(none + decimal_of(n) + none =~= decimal_of(n));
}

/// The secret is what the environment holds, without the white space round it; a blank one is
/// none.
pub proof fn law_secrets_are_trimmed(
    before: Seq<char>,
    secret: Seq<char>,
    after: Seq<char>,
    blanks: Seq<char>,
)
    requires
        all_white(before),
        tidy(secret),
        all_white(after),
        all_white(blanks),
    ensures
        token_of(Some(before + secret + after)) == Some(secret),
        token_of(Some(blanks)) is None,
        token_of(None) is None,
{
    law_trimming_leaves_the_text(before, secret, after);
    law_blank_texts_are_white(blanks);
}

/// A request is let through exactly when its header is the word `Bearer`, a space and the
/// secret.
pub proof fn law_bearers_of_the_secret_pass(secret: Seq<char>, h: Seq<char>)
    requires
        secret.len() > 0,
    ensures
        passes(Some("Bearer "@ + secret), Some(secret)),
        passes(Some(h), Some(secret)) ==> h == "Bearer "@ + secret,
        !passes(None, Some(secret)),
        !passes(Some(h), None),
        !passes(Some(h), Some(Seq::empty())),
{
}

} // verus!
