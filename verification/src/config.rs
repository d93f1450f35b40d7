//! Service configuration as plain values, injected at construction.
//! Reading the environment is the application's business; the types
//! here only hold the values and derive the service's addresses.

use vstd::prelude::*;
use vstd::string::{StringExecFns, StrSliceExecFns};

verus! {

/// One decimal digit as its character.
pub open spec fn digit_char(d: int) -> char {
    if d == 0 {
        '0'
    } else if d == 1 {
        '1'
    } else if d == 2 {
        '2'
    } else if d == 3 {
        '3'
    } else if d == 4 {
        '4'
    } else if d == 5 {
        '5'
    } else if d == 6 {
        '6'
    } else if d == 7 {
        '7'
    } else if d == 8 {
        '8'
    } else {
        '9'
    }
}

/// Decimal notation of `n`, as characters, most significant first.
pub open spec fn spec_dec_chars(n: nat) -> Seq<char>
    decreases n,
{
    if n < 10 {
        seq![digit_char(n as int)]
    } else {
        spec_dec_chars(n / 10) + seq![digit_char((n % 10) as int)]
    }
}

/// The character of one digit, as a one-character string.
fn digit_str(d: u64) -> (r: &'static str)
    requires
        d < 10,
    ensures
        r@ == seq![digit_char(d as int)],
{
    proof {
        reveal_strlit("0");
        reveal_strlit("1");
        reveal_strlit("2");
        reveal_strlit("3");
        reveal_strlit("4");
        reveal_strlit("5");
        reveal_strlit("6");
        reveal_strlit("7");
        reveal_strlit("8");
        reveal_strlit("9");
    }
    match d {
        0 => "0",
        1 => "1",
        2 => "2",
        3 => "3",
        4 => "4",
        5 => "5",
        6 => "6",
        7 => "7",
        8 => "8",
        _ => "9",
    }
}

/// Append the decimal notation of `n` to `s`.
fn push_dec(s: &mut String, n: u64)
    ensures
        final(s)@ == old(s)@ + spec_dec_chars(n as nat),
    decreases n,
{
    if n < 10 {
        s.append(digit_str(n));
    } else {
        push_dec(s, n / 10);
        s.append(digit_str(n % 10));
        proof {
            assert(s@ =~= old(s)@ + spec_dec_chars(n as nat));
        }
    }
}

/// Where the service listens, and how it reaches the session service.
#[derive(Debug, Clone)]
pub struct ServerConfig {
    pub addr: String,
    pub port: u16,
    pub auth_service: String,
    pub auth_secret_key: String,
}

impl ServerConfig {
    /// `addr:port`.
    pub fn get_addr(&self) -> (r: String)
        ensures
            r@ == self.addr@ + seq![':'] + spec_dec_chars(self.port as nat),
    {
        proof {
            reveal_strlit(":");
        }
        let mut s = self.addr.clone();
        s.append(":");
        push_dec(&mut s, self.port as u64);
        proof {
            assert(s@ =~= self.addr@ + seq![':'] + spec_dec_chars(self.port as nat));
        }
        s
    }

    /// `http://addr:port`.
    pub fn get_http_addr(&self) -> (r: String)
        ensures
            r@ == "http://"@ + self.addr@ + seq![':'] + spec_dec_chars(self.port as nat),
    {
        proof {
            reveal_strlit(":");
        }
        let mut s = String::from_str("http://");
        s.append(self.addr.as_str());
        s.append(":");
        push_dec(&mut s, self.port as u64);
        proof {
            assert(s@ =~= "http://"@ + self.addr@ + seq![':'] + spec_dec_chars(
                self.port as nat,
            ));
        }
        s
    }
}

/// The completion provider's credential.
#[derive(Debug, Clone)]
pub struct OpenAIConfig {
    pub openai_key: String,
}

/// The speech provider's credential.
#[derive(Debug, Clone)]
pub struct DeepgramConfig {
    pub deepgram_key: String,
}

/// Everything the service is configured with.
#[derive(Debug, Clone)]
pub struct ServiceConfig {
    pub server: ServerConfig,
    pub openai: OpenAIConfig,
    pub deepgram: DeepgramConfig,
}

} // verus!
