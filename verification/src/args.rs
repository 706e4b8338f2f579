//! The settings of one run, and how they follow from the command line.
//!
//! The command line is taken as plain values: for each option whether it was
//! given, and the text it was given with. Numbers are read from that text
//! here, and a thread count of 0, or none at all, stands for as many threads
//! as the machine has processors, but no more than 12.

use crate::text::chars_of;
use std::path::PathBuf;
use vstd::prelude::*;

verus! {

/// `std::path::PathBuf`, whose content is not looked into here.
#[verifier::external_type_specification]
#[verifier::external_body]
pub struct ExPathBuf(PathBuf);

/// The path that `std::path::PathBuf::from` makes of a text.
pub uninterp spec fn path_from(text: Seq<char>) -> PathBuf;

/// Makes a path of `text` with `PathBuf::from`, which keeps the text as it
/// is.
#[verifier::external_body]
fn path_of(text: &str) -> (path: PathBuf)
    ensures
        path == path_from(text@),
{
    PathBuf::from(text)
}

/// The number of processors that `num_cpus::get` reports, which its
/// documentation promises to be at least 1.
#[verifier::external_body]
fn available_processors() -> (count: usize)
    ensures
        count >= 1,
{
    num_cpus::get()
}

/// The most threads that are used where no number is asked for.
pub const MAX_DEFAULT_THREADS: usize = 12;

/// Why a text is no number.
#[derive(Debug, Clone, Copy, PartialEq, Eq, Structural)]
pub enum NumberError {
    /// The text is empty.
    Empty,
    /// The text holds no digit, or a character that is none.
    InvalidDigit,
    /// The number is too large.
    PosOverflow,
}

/// Whether `c` is one of the digits `0` to `9`.
pub open spec fn is_digit(c: char) -> bool {
    '0' <= c <= '9'
}

/// The number that the digit `c` stands for.
pub open spec fn digit_value(c: char) -> nat {
    (c as u32 - '0' as u32) as nat
}

/// Whether `digits` holds digits only.
pub open spec fn all_digits(digits: Seq<char>) -> bool {
    forall|i: int| 0 <= i < digits.len() ==> is_digit(digits[i])
}

/// The number that `digits` is the decimal notation of.
pub open spec fn decimal_value(digits: Seq<char>) -> nat
    decreases digits.len(),
{
    if digits.len() == 0 {
        0
    } else {
        decimal_value(digits.drop_last()) * 10 + digit_value(digits.last())
    }
}

/// `text` without the plus sign that may stand before the digits.
pub open spec fn without_sign(text: Seq<char>) -> Seq<char> {
    if text.len() > 0 && text[0] == '+' {
        text.drop_first()
    } else {
        text
    }
}

/// The number that `text` is the decimal notation of: digits, with or
/// without a plus sign before them.
pub open spec fn parse_number(text: Seq<char>) -> Result<usize, NumberError> {
    let digits = without_sign(text);
    if text.len() == 0 {
        Err(NumberError::Empty)
    } else if digits.len() == 0 || !all_digits(digits) {
        Err(NumberError::InvalidDigit)
    } else if decimal_value(digits) > usize::MAX {
        Err(NumberError::PosOverflow)
    } else {
        Ok(decimal_value(digits) as usize)
    }
}

/// The number that an option was given with, if it was given.
pub open spec fn parse_optional(value: Option<Seq<char>>) -> Result<Option<usize>, NumberError> {
    match value {
        None => Ok(None),
        Some(text) => match parse_number(text) {
            Ok(number) => Ok(Some(number)),
            Err(error) => Err(error),
        },
    }
}

/// The number of threads to use where `requested` were asked for on a
/// machine with `available` processors.
pub open spec fn threads_for(requested: usize, available: usize) -> usize {
    if requested != 0 {
        requested
    } else if available < MAX_DEFAULT_THREADS {
        available
    } else {
        MAX_DEFAULT_THREADS
    }
}

/// Reads a number from its decimal notation: digits, with or without a plus
/// sign before them. An empty text, a text without digits or with another
/// character among them, and a number that does not fit each give their
/// own error, in this order of precedence.
pub fn parse_usize(text: &str) -> (result: Result<usize, NumberError>)
    ensures
        result == parse_number(text@),
{
    let chars = chars_of(text);
    if chars.len() == 0 {
        return Err(NumberError::Empty);
    }
    let first: usize = if chars[0] == '+' {
        1
    } else {
        0
    };
    let ghost digits = without_sign(chars@);
    assert(digits == chars@.skip(first as int));
    if first == chars.len() {
        return Err(NumberError::InvalidDigit);
    }
    let mut value: usize = 0;
    let mut fits = true;
    let mut i: usize = first;
    assert(digits.take(0) == Seq::<char>::empty());
    while i < chars.len()
        invariant
            first <= i <= chars.len(),
            first < chars.len(),
            chars@ == text@,
            digits == without_sign(chars@),
            digits == chars@.skip(first as int),
            all_digits(digits.take(i - first)),
            fits ==> value == decimal_value(digits.take(i - first)),
            !fits ==> decimal_value(digits.take(i - first)) > usize::MAX,
        decreases chars.len() - i,
    {
        let c = chars[i];
        let ghost seen = digits.take(i - first);
        let ghost next = digits.take(i - first + 1);
        proof {
            assert(next.drop_last() == seen);
            assert(next.last() == c);
        }
        if c < '0' || c > '9' {
            assert(digits[i - first] == c);
            assert(!is_digit(digits[i - first]));
            return Err(NumberError::InvalidDigit);
        }
        if fits {
            let digit = (c as u32 - '0' as u32) as usize;
            fits = false;
            if let Some(tens) = value.checked_mul(10) {
                if let Some(sum) = tens.checked_add(digit) {
                    value = sum;
                    fits = true;
                }
            }
        }
        i += 1;
    }
    proof {
        assert(digits.take(i - first) == digits);
    }
    if fits {
        Ok(value)
    } else {
        Err(NumberError::PosOverflow)
    }
}

/// Chooses the number of threads: the number asked for, or, where that is
/// 0, the number of processors, but no more than 12.
pub fn pick_threads(requested: usize, available: usize) -> (threads: usize)
    ensures
        threads == threads_for(requested, available),
        requested != 0 ==> threads == requested,
        requested == 0 && available >= 1 ==> 1 <= threads <= MAX_DEFAULT_THREADS,
{
    if requested != 0 {
        requested
    } else if available < MAX_DEFAULT_THREADS {
        available
    } else {
        MAX_DEFAULT_THREADS
    }
}

/// The settings of one run.
#[derive(Debug)]
pub struct Args {
    path: PathBuf,
    endings: Vec<String>,
    clean: bool,
    line_length: Option<usize>,
    color: bool,
    threads: usize,
    quiet: bool,
    status: bool,
    tabs: bool,
}

/// The settings of one run as plain values.
pub struct Settings {
    /// Where to search.
    pub path: PathBuf,
    /// The endings of the files to search.
    pub endings: Seq<Seq<char>>,
    /// Whether to remove trailing whitespace.
    pub clean: bool,
    /// The longest line that is accepted, if lines are limited.
    pub line_length: Option<usize>,
    /// Whether to colour the output.
    pub color: bool,
    /// The number of threads to use.
    pub threads: usize,
    /// Whether to keep quiet.
    pub quiet: bool,
    /// Whether to report by the exit status.
    pub status: bool,
    /// Whether tabs are accepted.
    pub tabs: bool,
}

impl View for Args {
    type V = Settings;

    closed spec fn view(&self) -> Settings {
        Settings {
            path: self.path,
            endings: self.endings.deep_view(),
            clean: self.clean,
            line_length: self.line_length,
            color: self.color,
            threads: self.threads,
            quiet: self.quiet,
            status: self.status,
            tabs: self.tabs,
        }
    }
}

impl Args {
    /// Whether to keep quiet.
    pub fn quiet(&self) -> (quiet: bool)
        ensures
            quiet == self@.quiet,
    {
        self.quiet
    }

    /// The path that is searched.
    pub fn path(&self) -> (path: &PathBuf)
        ensures
            *path == self@.path,
    {
        &self.path
    }

    /// Whether to remove trailing whitespace.
    pub fn clean(&self) -> (clean: bool)
        ensures
            clean == self@.clean,
    {
        self.clean
    }

    /// Whether to report by the exit status.
    pub fn status(&self) -> (status: bool)
        ensures
            status == self@.status,
    {
        self.status
    }

    /// Whether tabs are accepted.
    pub fn tabs(&self) -> (tabs: bool)
        ensures
            tabs == self@.tabs,
    {
        self.tabs
    }

    /// Whether to colour the output.
    pub fn color(&self) -> (color: bool)
        ensures
            color == self@.color,
    {
        self.color
    }

    /// The endings of the files that are searched.
    pub fn endings(&self) -> (endings: &[String])
        ensures
            endings.deep_view() == self@.endings,
    {
        let endings = self.endings.as_slice();
        assert(endings.deep_view() =~= self.endings.deep_view());
        endings
    }

    /// The number of threads to use.
    pub fn threads(&self) -> (threads: usize)
        ensures
            threads == self@.threads,
    {
        self.threads
    }

    /// The longest line that is accepted, if lines are limited.
    pub fn line_length(&self) -> (line_length: Option<usize>)
        ensures
            line_length == self@.line_length,
    {
        self.line_length
    }
}

/// What the command line held: for each flag whether it was given, and for
/// each option the values it was given with, if any.
#[derive(Debug)]
pub struct ArgMatches {
    /// The value of `path`.
    pub path: Option<PathBuf>,
    /// The values of `endings`.
    pub endings: Option<Vec<String>>,
    /// Whether `clean` was given.
    pub clean: bool,
    /// The value of `L`, the longest line that is accepted.
    pub line_length: Option<String>,
    /// Whether `color` was given.
    pub color: bool,
    /// The value of `N`, the number of threads.
    pub threads: Option<String>,
    /// Whether `quiet` was given.
    pub quiet: bool,
    /// Whether `status` was given.
    pub status: bool,
    /// Whether `tabs` was given.
    pub tabs: bool,
}

/// The text of an option's value, if it was given.
pub open spec fn text_of(value: Option<String>) -> Option<Seq<char>> {
    match value {
        None => None,
        Some(text) => Some(text@),
    }
}

/// The endings that were given, or none.
pub open spec fn endings_of(values: Option<Vec<String>>) -> Seq<Seq<char>> {
    match values {
        None => Seq::empty(),
        Some(values) => values.deep_view(),
    }
}

/// The path that was given, or the current directory.
pub open spec fn path_or_default(value: Option<PathBuf>) -> PathBuf {
    match value {
        None => path_from("./"@),
        Some(path) => path,
    }
}

impl ArgMatches {
    /// The number of threads to use on a machine with `available`
    /// processors, or why the thread count that was given is no number.
    pub open spec fn thread_count(self, available: usize) -> Result<usize, NumberError> {
        match parse_optional(text_of(self.threads)) {
            Err(error) => Err(error),
            Ok(Some(requested)) => Ok(threads_for(requested, available)),
            Ok(None) => Ok(threads_for(0, available)),
        }
    }

    /// The settings that follow from the command line on a machine with
    /// `available` processors, or the error of the first number that cannot
    /// be read: that of the line length before that of the thread count.
    pub open spec fn settings(self, available: usize) -> Result<Settings, NumberError> {
        match parse_optional(text_of(self.line_length)) {
            Err(error) => Err(error),
            Ok(line_length) => match self.thread_count(available) {
                Err(error) => Err(error),
                Ok(threads) => Ok(
                    Settings {
                        path: path_or_default(self.path),
                        endings: endings_of(self.endings),
                        clean: self.clean,
                        line_length,
                        color: self.color,
                        threads,
                        quiet: self.quiet,
                        status: self.status,
                        tabs: self.tabs,
                    },
                ),
            },
        }
    }

    /// The endings to search: those that were given, or none.
    pub fn endings(values: Option<Vec<String>>) -> (endings: Vec<String>)
        ensures
            endings.deep_view() == endings_of(values),
    {
        match values {
            None => {
                let none: Vec<String> = Vec::new();
                assert(none.deep_view() =~= Seq::empty());
                none
            },
            Some(values) => values,
        }
    }

    /// The path to search: the one that was given, or the current
    /// directory.
    pub fn path(value: Option<PathBuf>) -> (path: PathBuf)
        ensures
            path == path_or_default(value),
    {
        match value {
            None => Self::default_path(),
            Some(path) => path,
        }
    }

    /// The path to search where none is given: the current directory.
    pub fn default_path() -> (path: PathBuf)
        ensures
            path == path_from("./"@),
    {
        path_of("./")
    }

    /// Reads the number that an option was given with. An option that was
    /// not given has none; one that was given with a text that is no number
    /// is an error.
    pub fn usize_of(value: &Option<String>) -> (result: Result<Option<usize>, NumberError>)
        ensures
            result == parse_optional(text_of(*value)),
    {
        match value {
            None => Ok(None),
            Some(text) => match parse_usize(text.as_str()) {
                Ok(number) => Ok(Some(number)),
                Err(error) => Err(error),
            },
        }
    }

    /// The number of threads to use on a machine with `available`
    /// processors.
    pub fn threads_on(&self, available: usize) -> (result: Result<usize, NumberError>)
        ensures
            result == self.thread_count(available),
    {
        match Self::usize_of(&self.threads) {
            Err(error) => Err(error),
            Ok(Some(requested)) => Ok(pick_threads(requested, available)),
            Ok(None) => Ok(pick_threads(0, available)),
        }
    }

    /// The number of threads to use on this machine. It is that of
    /// `threads_on` for the number of processors that the machine reports,
    /// which is at least 1 and is asked for only where no thread count, or
    /// 0, was given.
    pub fn threads(&self) -> (result: Result<usize, NumberError>)
        ensures
            exists|available: usize| available >= 1 && result == #[trigger] self.thread_count(available),
    {
        let requested = match Self::usize_of(&self.threads) {
            Err(error) => {
                assert(self.thread_count(1) == Err::<usize, NumberError>(error));
                return Err(error);
            },
            Ok(Some(requested)) => requested,
            Ok(None) => 0,
        };
        if requested == 0 {
            let available = available_processors();
            let threads = pick_threads(requested, available);
            assert(self.thread_count(available) == Ok::<usize, NumberError>(threads));
            Ok(threads)
        } else {
            assert(self.thread_count(1) == Ok::<usize, NumberError>(requested));
            Ok(requested)
        }
    }

    /// The settings with the given line length and thread count, and all
    /// else as the command line has it.
    fn assemble(self, line_length: Option<usize>, threads: usize) -> (args: Args)
        ensures
            args@ == (Settings {
                path: path_or_default(self.path),
                endings: endings_of(self.endings),
                clean: self.clean,
                line_length,
                color: self.color,
                threads,
                quiet: self.quiet,
                status: self.status,
                tabs: self.tabs,
            }),
    {
        Args {
            path: Self::path(self.path),
            endings: Self::endings(self.endings),
            clean: self.clean,
            line_length,
            color: self.color,
            threads,
            quiet: self.quiet,
            status: self.status,
            tabs: self.tabs,
        }
    }

    /// The settings that follow from the command line on a machine with
    /// `available` processors.
    pub fn to_args_on(self, available: usize) -> (result: Result<Args, NumberError>)
        ensures
            match result {
                Ok(args) => self.settings(available) == Ok::<Settings, NumberError>(args@),
                Err(error) => self.settings(available) == Err::<Settings, NumberError>(error),
            },
    {
        let line_length = match Self::usize_of(&self.line_length) {
            Ok(line_length) => line_length,
            Err(error) => return Err(error),
        };
        let threads = match self.threads_on(available) {
            Ok(threads) => threads,
            Err(error) => return Err(error),
        };
        Ok(self.assemble(line_length, threads))
    }

    /// The settings that follow from the command line on this machine. They
    /// are those of `to_args_on` for the number of processors that the
    /// machine reports, which is at least 1: so a thread count that was not
    /// given, or given as 0, comes out between 1 and 12.
    pub fn to_args(self) -> (result: Result<Args, NumberError>)
        ensures
            exists|available: usize|
                available >= 1 && match result {
                    Ok(args) => #[trigger] self.settings(available) == Ok::<Settings, NumberError>(
                        args@,
                    ),
                    Err(error) => self.settings(available) == Err::<Settings, NumberError>(error),
                },
    {
        let line_length = match Self::usize_of(&self.line_length) {
            Ok(line_length) => line_length,
            Err(error) => {
                assert(self.settings(1) == Err::<Settings, NumberError>(error));
                return Err(error);
            },
        };
        let threads = match self.threads() {
            Ok(threads) => threads,
            Err(error) => {
                let ghost available = choose|available: usize|
                    available >= 1 && self.thread_count(available) == Err::<usize, NumberError>(
                        error,
                    );
                assert(self.settings(available) == Err::<Settings, NumberError>(error));
                return Err(error);
            },
        };
        let ghost available = choose|available: usize|
            available >= 1 && self.thread_count(available) == Ok::<usize, NumberError>(threads);
        let args = self.assemble(line_length, threads);
        assert(self.settings(available) == Ok::<Settings, NumberError>(args@));
        Ok(args)
    }
}

} // verus!
