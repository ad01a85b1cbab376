//! Command-line configuration: grid width, grid height and display glyph.
use vstd::prelude::*;
use vstd::string::StrSliceExecFns;

verus! {

/// Width used when no width argument is given.
pub const DEFAULT_WIDTH: u32 = 80;

/// Height used when no height argument is given.
pub const DEFAULT_HEIGHT: u32 = 40;

/// Glyph used when no glyph argument is given: a full block.
pub const DEFAULT_GLYPH: char = '\u{2588}';

pub struct Config {
    pub width: u32,
    pub height: u32,
    pub glyph: char,
}

pub open spec fn is_digit(c: char) -> bool {
    '0' <= c <= '9'
}

pub open spec fn digit_value(c: char) -> int {
    c as int - '0' as int
}

/// The value of a string of decimal digits, most significant first.
pub open spec fn digits_value(s: Seq<char>) -> int
    decreases s.len(),
{
    if s.len() == 0 {
        0
    } else {
        digits_value(s.drop_last()) * 10 + digit_value(s.last())
    }
}

pub open spec fn all_digits(s: Seq<char>) -> bool {
    forall|i: int| 0 <= i < s.len() ==> is_digit(#[trigger] s[i])
}

/// The positive integer that `s` spells in decimal, if it spells one that
/// fits in a `u32`.
pub open spec fn dimension_of(s: Seq<char>) -> Option<u32> {
    if s.len() > 0 && all_digits(s) && 0 < digits_value(s) <= u32::MAX {
        Some(digits_value(s) as u32)
    } else {
        None
    }
}

/// The text of argument `i`, if there is one.
pub open spec fn arg_text(args: Seq<String>, i: int) -> Option<Seq<char>> {
    if 0 <= i < args.len() {
        Some(args[i]@)
    } else {
        None
    }
}

/// A dimension argument: its default when absent, else its decimal value.
pub open spec fn dimension_arg(arg: Option<Seq<char>>, default: u32) -> Option<u32> {
    match arg {
        None => Some(default),
        Some(s) => dimension_of(s),
    }
}

/// The glyph argument: its default when absent, else its first character.
pub open spec fn glyph_arg(arg: Option<Seq<char>>) -> Option<char> {
    match arg {
        None => Some(DEFAULT_GLYPH),
        Some(s) => if s.len() > 0 {
            Some(s[0])
        } else {
            None
        },
    }
}

proof fn lemma_digits_value_nonneg(s: Seq<char>)
    requires
        all_digits(s),
    ensures
        digits_value(s) >= 0,
    decreases s.len(),
{
    if s.len() > 0 {
        assert(all_digits(s.drop_last())) by {
            assert forall|i: int| 0 <= i < s.drop_last().len() implies is_digit(
                #[trigger] s.drop_last()[i],
            ) by {
                assert(s.drop_last()[i] == s[i]);
            }
        }
        lemma_digits_value_nonneg(s.drop_last());
    }
}

/// Reads a positive decimal `u32`; `None` for anything else.
pub fn parse_dimension(s: &String) -> (r: Option<u32>)
    ensures
        r == dimension_of(s@),
{
    let text = s.as_str();
    let n = text.unicode_len();
    let mut value: u64 = 0;
    let mut digits_only = true;
    let mut too_large = false;
    let mut i: usize = 0;
    while i < n
        invariant
            n == s@.len(),
            text@ == s@,
            0 <= i <= n,
            digits_only <==> all_digits(s@.take(i as int)),
            digits_only && !too_large ==> value == digits_value(s@.take(i as int)),
            digits_only && !too_large ==> value <= u32::MAX,
            digits_only && too_large ==> digits_value(s@.take(i as int)) > u32::MAX,
        decreases n - i,
    {
        let c = text.get_char(i);
        let ghost prefix = s@.take(i as int);
        let ghost next = s@.take(i + 1);
        assert(next.drop_last() =~= prefix);
        assert(next.last() == c);
        if !digits_only {
            assert(!all_digits(next)) by {
                let j = choose|j: int| 0 <= j < prefix.len() && !is_digit(#[trigger] prefix[j]);
                assert(next[j] == prefix[j]);
            }
        } else if '0' <= c && c <= '9' {
            assert(all_digits(next)) by {
                assert forall|j: int| 0 <= j < next.len() implies is_digit(#[trigger] next[j]) by {
                    if j < i {
                        assert(next[j] == prefix[j]);
                    }
                }
            }
            proof {
                lemma_digits_value_nonneg(prefix);
            }
            if !too_large {
                value = value * 10 + (c as u64 - '0' as u64);
                if value > u32::MAX as u64 {
                    too_large = true;
                }
            }
        } else {
            digits_only = false;
            assert(!all_digits(next)) by {
                assert(next[i as int] == c);
            }
        }
        i = i + 1;
    }
    assert(s@.take(n as int) =~= s@);
    if digits_only && !too_large && n > 0 && value > 0 {
        Some(value as u32)
    } else {
        None
    }
}

impl Config {
    /// Builds the configuration from the program's arguments: the first is
    /// the program's name, then width, height and glyph, each optional.
    pub fn build(args: &Vec<String>) -> (r: Result<Config, &'static str>)
        ensures
            dimension_arg(arg_text(args@, 1), DEFAULT_WIDTH) is None ==> r
                == Err::<Config, &'static str>("width must be a positive integer"),
            dimension_arg(arg_text(args@, 1), DEFAULT_WIDTH) is Some && dimension_arg(
                arg_text(args@, 2),
                DEFAULT_HEIGHT,
            ) is None ==> r == Err::<Config, &'static str>("height must be a positive integer"),
            dimension_arg(arg_text(args@, 1), DEFAULT_WIDTH) is Some && dimension_arg(
                arg_text(args@, 2),
                DEFAULT_HEIGHT,
            ) is Some && glyph_arg(arg_text(args@, 3)) is None ==> r == Err::<
                Config,
                &'static str,
            >("glyph must not be empty"),
            r is Ok <==> (dimension_arg(arg_text(args@, 1), DEFAULT_WIDTH) is Some
                && dimension_arg(arg_text(args@, 2), DEFAULT_HEIGHT) is Some && glyph_arg(
                arg_text(args@, 3),
            ) is Some),
            r is Ok ==> ({
                let c = r->Ok_0;
                &&& Some(c.width) == dimension_arg(arg_text(args@, 1), DEFAULT_WIDTH)
                &&& Some(c.height) == dimension_arg(arg_text(args@, 2), DEFAULT_HEIGHT)
                &&& Some(c.glyph) == glyph_arg(arg_text(args@, 3))
            }),
    {
        let width = if args.len() > 1 {
            parse_dimension(&args[1])
        } else {
            Some(DEFAULT_WIDTH)
        };
        let width = match width {
            Some(w) => w,
            None => {
                return Err("width must be a positive integer");
            },
        };
        let height = if args.len() > 2 {
            parse_dimension(&args[2])
        } else {
            Some(DEFAULT_HEIGHT)
        };
        let height = match height {
            Some(h) => h,
            None => {
                return Err("height must be a positive integer");
            },
        };
        let glyph = if args.len() > 3 {
            let text = args[3].as_str();
            if text.unicode_len() > 0 {
                text.get_char(0)
            } else {
                return Err("glyph must not be empty");
            }
        } else {
            DEFAULT_GLYPH
        };
        Ok(Config { width, height, glyph })
    }
}

} // verus!
