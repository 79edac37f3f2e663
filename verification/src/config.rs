//! The run configuration: what a run is asked to do, how it is read from
//! the command-line arguments, and when it is refused.

use crate::matrix::{check_power_of_two, is_power_of_two};
use vstd::prelude::*;

verus! {

/// Longest output side when the arguments name none.
pub const DEFAULT_MAX_IMAGE_SIDE: u32 = 800;

/// Side of the Bayer matrix when the arguments name none.
pub const DEFAULT_BAYER_ORDER: usize = 8;

/// `c` is one of the ten ASCII digits.
pub open spec fn is_digit(c: char) -> bool {
    '0' <= c && c <= '9'
}

/// The number that a sequence of digits denotes in base ten; the empty
/// sequence denotes 0.
pub open spec fn digits_value(digits: Seq<char>) -> int
    decreases digits.len(),
{
    if digits.len() == 0 {
        0
    } else {
        10 * digits_value(digits.drop_last()) + (digits.last() as int - '0' as int)
    }
}

/// Every character of the sequence is a digit.
pub open spec fn all_digits(digits: Seq<char>) -> bool {
    forall|i: int| 0 <= i < digits.len() ==> is_digit(#[trigger] digits[i])
}

/// The text without the one `+` that may lead it.
pub open spec fn without_plus_sign(text: Seq<char>) -> Seq<char> {
    if text.len() > 0 && text[0] == '+' {
        text.subrange(1, text.len() as int)
    } else {
        text
    }
}

/// The number that `text` denotes, if it is a decimal number of at most
/// `max`: an optional `+`, then one or more digits and nothing else.
pub open spec fn decimal_value(text: Seq<char>, max: int) -> Option<int> {
    let digits = without_plus_sign(text);
    if digits.len() > 0 && all_digits(digits) && digits_value(digits) <= max {
        Some(digits_value(digits))
    } else {
        None
    }
}

proof fn lemma_digits_value_of_prefix(digits: Seq<char>, n: int)
    requires
        all_digits(digits),
        0 <= n <= digits.len(),
    ensures
        0 <= digits_value(digits.take(n)) <= digits_value(digits),
    decreases digits.len() - n,
{
    if n == digits.len() {
        assert(digits.take(n) =~= digits);
        lemma_digits_value_nonnegative(digits);
    } else {
        lemma_digits_value_of_prefix(digits, n + 1);
        assert(digits.take(n + 1).drop_last() =~= digits.take(n));
        assert(is_digit(digits[n]));
        assert(digits.take(n + 1).last() == digits[n]);
        lemma_digits_value_nonnegative(digits.take(n));
    }
}

proof fn lemma_digits_value_nonnegative(digits: Seq<char>)
    requires
        all_digits(digits),
    ensures
        0 <= digits_value(digits),
    decreases digits.len(),
{
    if digits.len() > 0 {
        assert(is_digit(digits.last()));
        lemma_digits_value_nonnegative(digits.drop_last());
    }
}

/// Reads a decimal number of at most `max`.
pub fn parse_decimal(text: &str, max: u64) -> (value: Option<u64>)
    ensures
        value is Some <==> decimal_value(text@, max as int) is Some,
        value matches Some(v) ==> decimal_value(text@, max as int) == Some(v as int),
{
    let n = text.unicode_len();
    let start: usize = if n > 0 && text.get_char(0) == '+' { 1 } else { 0 };
    let ghost digits = without_plus_sign(text@);
    proof {
        assert(digits =~= text@.subrange(start as int, n as int));
    }
    if start == n {
        return None;
    }
    let mut acc: u64 = 0;
    let mut i: usize = start;
    while i < n
        invariant
            start <= i <= n,
            n == text@.len(),
            digits == without_plus_sign(text@),
            digits == text@.subrange(start as int, n as int),
            all_digits(digits.take(i - start)),
            acc == digits_value(digits.take(i - start)),
            acc <= max,
        decreases n - i,
    {
        let c = text.get_char(i);
        if !(c >= '0' && c <= '9') {
            proof {
                assert(!is_digit(digits[i - start]));
            }
            return None;
        }
        let d: u64 = (c as u32 - '0' as u32) as u64;
        proof {
            assert(digits.take(i - start + 1).drop_last() =~= digits.take(i - start));
            assert(digits.take(i - start + 1).last() == c);
            if all_digits(digits) {
                lemma_digits_value_of_prefix(digits, i - start + 1);
            }
        }
        if d > max || acc > (max - d) / 10 {
            return None;
        }
        acc = acc * 10 + d;
        i += 1;
    }
    proof {
        assert(digits.take(n - start) =~= digits);
    }
    Some(acc)
}

/// A Bayer order that a run accepts: a power of two, and at least 2.
pub open spec fn is_valid_order(order: int) -> bool {
    order >= 2 && is_power_of_two(order)
}

/// The longest output side that the arguments ask for: the third argument
/// where it is a decimal number of at least 1 that fits in 32 bits, else the
/// default.
pub open spec fn requested_max_side(args: Seq<String>) -> int {
    if args.len() > 2 {
        match decimal_value(args[2]@, u32::MAX as int) {
            Some(side) => if side >= 1 {
                side
            } else {
                DEFAULT_MAX_IMAGE_SIDE as int
            },
            None => DEFAULT_MAX_IMAGE_SIDE as int,
        }
    } else {
        DEFAULT_MAX_IMAGE_SIDE as int
    }
}

/// The Bayer order that the arguments ask for: the fourth argument where it
/// is a decimal number that fits in a machine word, else the default.
pub open spec fn requested_order(args: Seq<String>) -> int {
    if args.len() > 3 {
        match decimal_value(args[3]@, usize::MAX as int) {
            Some(order) => order,
            None => DEFAULT_BAYER_ORDER as int,
        }
    } else {
        DEFAULT_BAYER_ORDER as int
    }
}

/// Why a run was refused before any file was touched.
#[derive(Debug)]
pub enum ConfigError {
    /// The arguments name no directory.
    MissingDirectory { program: String },
    /// The directory named does not exist.
    DirectoryNotFound { dir_path: String },
    /// The Bayer order is not a power of two of at least 2.
    InvalidBayerOrder,
}

impl ConfigError {
    /// The text of the error, for the user.
    pub fn message(&self) -> (text: String)
        ensures
            self matches ConfigError::MissingDirectory { program } ==> text@ == "Usage: "@
                + program@ + " <path-to-images> [max_image_side] [bayer_order]"@,
            self matches ConfigError::DirectoryNotFound { dir_path } ==> text@
                == "Directory does not exist: "@ + dir_path@,
            self is InvalidBayerOrder ==> text@ == "Bayer order must be a power of 2"@,
    {
        match self {
            ConfigError::MissingDirectory { program } => {
                let mut text = String::from_str("Usage: ");
                text.append(program.as_str());
                text.append(" <path-to-images> [max_image_side] [bayer_order]");
                text
            },
            ConfigError::DirectoryNotFound { dir_path } => {
                let mut text = String::from_str("Directory does not exist: ");
                text.append(dir_path.as_str());
                text
            },
            ConfigError::InvalidBayerOrder => String::from_str("Bayer order must be a power of 2"),
        }
    }
}

/// What a configuration holds.
pub struct RunSettings {
    pub dir_path: Seq<char>,
    pub max_image_side: int,
    pub bayer_order: int,
}

/// The configuration of a run. Its longest output side is always at least
/// 1, and its Bayer order a valid one.
#[derive(Debug)]
pub struct Config {
    dir_path: String,
    max_image_side: u32,
    bayer_order: usize,
}

impl View for Config {
    type V = RunSettings;

    closed spec fn view(&self) -> RunSettings {
        RunSettings {
            dir_path: self.dir_path@,
            max_image_side: self.max_image_side as int,
            bayer_order: self.bayer_order as int,
        }
    }
}

impl Config {
    #[verifier::type_invariant]
    spec fn well_formed(self) -> bool {
        self.max_image_side >= 1 && is_valid_order(self.bayer_order as int)
    }

    /// A configuration of the given settings, refused if the Bayer order is
    /// not valid.
    fn validated(dir_path: String, max_image_side: u32, bayer_order: usize) -> (result: Result<
        Config,
        ConfigError,
    >)
        requires
            max_image_side >= 1,
        ensures
            is_valid_order(bayer_order as int) ==> (result matches Ok(config) && config@
                == (RunSettings {
                dir_path: dir_path@,
                max_image_side: max_image_side as int,
                bayer_order: bayer_order as int,
            })),
            !is_valid_order(bayer_order as int) ==> (result matches Err(error)
                && error is InvalidBayerOrder),
    {
        if bayer_order < 2 || !check_power_of_two(bayer_order) {
            return Err(ConfigError::InvalidBayerOrder);
        }
        Ok(Config { dir_path, max_image_side, bayer_order })
    }

    /// Reads the configuration from the command-line arguments: the
    /// program's name, the directory, and optionally the longest output side
    /// and the Bayer order. `dir_exists` says whether the directory named by
    /// the second argument exists; it is not looked at when there is none.
    ///
    /// An optional argument that is not a decimal number in range counts as
    /// absent, and so does a longest side of 0. A configuration that is
    /// returned holds a longest side of at least 1.
    pub fn from_args(args: &Vec<String>, dir_exists: bool) -> (result: Result<Config, ConfigError>)
        ensures
            args@.len() < 2 ==> (result matches Err(ConfigError::MissingDirectory { program })
                && program@ == (if args@.len() > 0 {
                args@[0]@
            } else {
                "program"@
            })),
            args@.len() >= 2 && !dir_exists ==> (result matches Err(
                ConfigError::DirectoryNotFound { dir_path },
            ) && dir_path@ == args@[1]@),
            args@.len() >= 2 && dir_exists && !is_valid_order(requested_order(args@)) ==> (
            result matches Err(error) && error is InvalidBayerOrder),
            args@.len() >= 2 && dir_exists && is_valid_order(requested_order(args@)) ==> (
            result matches Ok(config) && config@ == (RunSettings {
                dir_path: args@[1]@,
                max_image_side: requested_max_side(args@),
                bayer_order: requested_order(args@),
            })),
            result matches Ok(config) ==> config@.max_image_side >= 1 && is_valid_order(
                config@.bayer_order,
            ),
            result is Ok ==> args@.len() >= 2 && dir_exists,
    {
        if args.len() < 2 {
            let program = if args.len() > 0 {
                args[0].clone()
            } else {
                String::from_str("program")
            };
            return Err(ConfigError::MissingDirectory { program });
        }
        let dir_path = args[1].clone();
        if !dir_exists {
            return Err(ConfigError::DirectoryNotFound { dir_path });
        }
        let mut max_image_side: u32 = DEFAULT_MAX_IMAGE_SIDE;
        if args.len() > 2 {
            match parse_decimal(args[2].as_str(), u32::MAX as u64) {
                Some(side) => {
                    if side >= 1 {
                        max_image_side = side as u32;
                    }
                },
                None => {},
            }
        }
        let mut bayer_order: usize = DEFAULT_BAYER_ORDER;
        if args.len() > 3 {
            match parse_decimal(args[3].as_str(), usize::MAX as u64) {
                Some(order) => {
                    bayer_order = order as usize;
                },
                None => {},
            }
        }
        Config::validated(dir_path, max_image_side, bayer_order)
    }

    /// The directory to search.
    pub fn dir_path(&self) -> (path: &String)
        ensures
            path@ == self@.dir_path,
    {
        &self.dir_path
    }

    /// The longest side an output image may have: at least 1.
    pub fn max_image_side(&self) -> (side: u32)
        ensures
            side == self@.max_image_side,
            side >= 1,
    {
        proof {
            use_type_invariant(self);
        }
        self.max_image_side
    }

    /// The side of the Bayer matrix: a power of two, at least 2.
    pub fn bayer_order(&self) -> (order: usize)
        ensures
            order == self@.bayer_order,
            is_valid_order(order as int),
    {
        proof {
            use_type_invariant(self);
        }
        self.bayer_order
    }
}

} // verus!
