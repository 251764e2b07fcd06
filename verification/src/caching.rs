//! Data for the response-caching middleware: which `Cache-Control` header
//! a response should carry.  The middleware itself lives outside the
//! library; this module owns the options and the header value they denote.

use vstd::prelude::*;
use vstd::string::StringExecFns;

verus! {

/// The character of one decimal digit.
pub open spec fn dec_digit(d: int) -> char {
    if d == 0 {
        '0'
    } else if d == 1 {
        '1'
    } else if d == 2 {
        '2'
    } else if d == 3 {
        '3'
    } else if d == 4 {
        '4'
    } else if d == 5 {
        '5'
    } else if d == 6 {
        '6'
    } else if d == 7 {
        '7'
    } else if d == 8 {
        '8'
    } else {
        '9'
    }
}

/// The decimal representation of `n`, most significant digit first,
/// without leading zeros (except for `n == 0`).
pub open spec fn dec_str(n: nat) -> Seq<char>
    decreases n,
{
    if n < 10 {
        seq![dec_digit(n as int)]
    } else {
        dec_str(n / 10) + seq![dec_digit((n % 10) as int)]
    }
}

/// One decimal digit as a string slice.
fn dec_digit_str(d: u32) -> (r: &'static str)
    requires
        d < 10,
    ensures
        r@ == seq![dec_digit(d as int)],
{
    proof {
        reveal_strlit("0");
        reveal_strlit("1");
        reveal_strlit("2");
        reveal_strlit("3");
        reveal_strlit("4");
        reveal_strlit("5");
        reveal_strlit("6");
        reveal_strlit("7");
        reveal_strlit("8");
        reveal_strlit("9");
    }
    let r = match d {
        0 => "0",
        1 => "1",
        2 => "2",
        3 => "3",
        4 => "4",
        5 => "5",
        6 => "6",
        7 => "7",
        8 => "8",
        _ => "9",
    };
    proof {
        assert(r@ =~= seq![dec_digit(d as int)]);
    }
    r
}

/// Append the decimal representation of `n`.
fn push_dec(out: &mut String, n: u32)
    ensures
        final(out)@ == old(out)@ + dec_str(n as nat),
    decreases n,
{
    if n >= 10 {
        push_dec(out, n / 10);
        out.append(dec_digit_str(n % 10));
        proof {
            assert(out@ =~= old(out)@ + dec_str(n as nat));
        }
    } else {
        out.append(dec_digit_str(n));
    }
}

/// The core use-cases of the `Cache-Control` header.
///
/// Note: This doesn't include *all* of the possible options.
#[derive(Debug, Clone, Copy, PartialEq, Eq, Structural)]
pub enum CacheControl {
    /// Cache-Control: `no-cache, max-age=0`
    NoCache,
    /// Cache-Control: `no-store`
    NoStore,
    /// Cache-Control: `max-age=<seconds>`
    MaxAge(u32),
    /// Cache-Control: `max-age=<seconds>, must-revalidate`
    MustRevalidate(u32),
}

impl Default for CacheControl {
    fn default() -> (r: Self)
        ensures
            r == CacheControl::NoCache,
    {
        CacheControl::NoCache
    }
}

/// Options for the caching layer.
///
/// The default is:
/// - `Cache-Control: public, no-cache, max-age=0`
#[derive(Debug, Clone, Copy, PartialEq, Eq, Structural)]
pub struct Options {
    /// The core use-cases of the `Cache-Control` header.
    pub cache_control: CacheControl,
    /// Should the `Cache-Control` use `private` or `public` (default: false).
    pub private: bool,
    /// Should the `Cache-Control` use `immutable` (default: false).
    pub immutable: bool,
}

impl Default for Options {
    fn default() -> (r: Self)
        ensures
            r == (Options {
                cache_control: CacheControl::NoCache,
                private: false,
                immutable: false,
            }),
    {
        Options { cache_control: CacheControl::NoCache, private: false, immutable: false }
    }
}

impl CacheControl {
    /// The middle section of the header this option denotes.
    pub open spec fn spec_core(self) -> Seq<char> {
        match self {
            CacheControl::NoCache => "no-cache, max-age=0"@,
            CacheControl::NoStore => "no-store"@,
            CacheControl::MaxAge(secs) => "max-age="@ + dec_str(secs as nat),
            CacheControl::MustRevalidate(secs) => "max-age="@ + dec_str(secs as nat)
                + ", must-revalidate"@,
        }
    }
}

impl Options {
    /// The full `Cache-Control` value these options denote: publicity,
    /// then the core directive, then immutability.
    pub open spec fn spec_header_value(self) -> Seq<char> {
        (if self.private {
            "private, "@
        } else {
            "public, "@
        }) + self.cache_control.spec_core() + (if self.immutable {
            ", immutable"@
        } else {
            Seq::<char>::empty()
        })
    }

    /// Build the `Cache-Control` header value.
    pub fn header_value(&self) -> (r: String)
        ensures
            r@ == self.spec_header_value(),
    {
        let mut out = String::new();
        if self.private {
            out.append("private, ");
        } else {
            out.append("public, ");
        }
        let ghost with_publicity = out@;
        match self.cache_control {
            CacheControl::NoCache => out.append("no-cache, max-age=0"),
            CacheControl::NoStore => out.append("no-store"),
            CacheControl::MaxAge(secs) => {
                out.append("max-age=");
                push_dec(&mut out, secs);
                proof {
                    assert(out@ =~= with_publicity + self.cache_control.spec_core());
                }
            },
            CacheControl::MustRevalidate(secs) => {
                out.append("max-age=");
                push_dec(&mut out, secs);
                out.append(", must-revalidate");
                proof {
                    assert(out@ =~= with_publicity + self.cache_control.spec_core());
                }
            },
        }
        if self.immutable {
            out.append(", immutable");
        }
        proof {
            assert(out@ =~= self.spec_header_value());
        }
        out
    }
}

/// A middleware configuration holding caching [`Options`].
#[derive(Debug, Clone)]
pub struct CacheLayer {
    /// The options the layer stamps onto responses.
    pub options: Options,
}

impl CacheLayer {
    /// Build a layer from the given options.
    pub fn new(options: Options) -> (r: Self)
        ensures
            r.options == options,
    {
        Self { options }
    }
}

impl Default for CacheLayer {
    fn default() -> (r: Self)
        ensures
            r.options == (Options {
                cache_control: CacheControl::NoCache,
                private: false,
                immutable: false,
            }),
    {
        CacheLayer { options: Options::default() }
    }
}

} // verus!
