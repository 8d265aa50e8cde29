//! The load profile: how many requests to issue, how many at once, how fast.

use vstd::prelude::*;
use vstd::string::StrSliceExecFns;
use crate::error::ConfigError;

verus! {

/// The mathematical content of a load profile.
pub struct ProfileModel {
    pub total_requests: nat,
    pub concurrency: nat,
    pub rate_per_second: nat,
    pub per_request_timeout_micros: nat,
    pub worker_count: nat,
    pub compression: bool,
    pub keep_alive: bool,
}

impl ProfileModel {
    /// A profile can be run when at least one request may be in flight and
    /// the concurrency level does not exceed the number of requests.
    pub open spec fn runnable(self) -> bool {
        1 <= self.concurrency <= self.total_requests
    }
}

/// The number of requests of a run where no option gives it.
pub const DEFAULT_TOTAL_REQUESTS: u32 = 200;

/// The concurrency level where no option gives it.
pub const DEFAULT_CONCURRENCY: u32 = 50;

/// The rate per second where no option gives it.
pub const DEFAULT_RATE_PER_SECOND: u32 = 1;

/// The per-request timeout, in seconds, where no option gives it.
pub const DEFAULT_TIMEOUT_SECONDS: u32 = 20;

/// Whether a character is one of the ten decimal digits.
pub open spec fn is_digit(c: char) -> bool {
    '0' <= c <= '9'
}

/// The number that a sequence of decimal digits stands for.
pub open spec fn decimal_value(digits: Seq<char>) -> nat
    decreases digits.len(),
{
    if digits.len() == 0 {
        0
    } else {
        (decimal_value(digits.drop_last()) * 10 + (digits.last() as u32 - '0' as u32)) as nat
    }
}

/// The text of a count without the plus sign that may stand in front.
pub open spec fn unsigned_part(text: Seq<char>) -> Seq<char> {
    if text.len() > 0 && text[0] == '+' {
        text.drop_first()
    } else {
        text
    }
}

/// The count that a text stands for: one or more decimal digits, with an
/// optional plus sign in front and nothing else around them, whose value
/// fits 32 bits. Any other text stands for none.
pub open spec fn parsed_count(text: Seq<char>) -> Option<u32> {
    let digits = unsigned_part(text);
    if digits.len() > 0 && (forall|i: int| 0 <= i < digits.len() ==> is_digit(#[trigger] digits[i]))
        && decimal_value(digits) <= u32::MAX {
        Some(decimal_value(digits) as u32)
    } else {
        None
    }
}

/// A longer sequence of digits stands for no smaller number than its
/// beginning does.
proof fn lemma_decimal_value_grows(digits: Seq<char>, k: int)
    requires
        0 <= k <= digits.len(),
        forall|i: int| 0 <= i < digits.len() ==> is_digit(#[trigger] digits[i]),
    ensures
        decimal_value(digits.take(k)) <= decimal_value(digits),
    decreases digits.len() - k,
{
    if k == digits.len() {
        assert(digits.take(k) =~= digits);
    } else {
        lemma_decimal_value_grows(digits, k + 1);
        assert(digits.take(k + 1).drop_last() =~= digits.take(k));
        assert(is_digit(digits[k]));
        assert(digits.take(k + 1).last() == digits[k]);
    }
}

/// Reads a count from its decimal text.
pub fn parse_count(text: &str) -> (r: Result<u32, ConfigError>)
    ensures
        match r {
            Ok(n) => parsed_count(text@) == Some(n),
            Err(e) => e == ConfigError::InvalidNumber && parsed_count(text@) is None,
        },
{
    let len: usize = text.unicode_len();
    if len == 0 {
        return Err(ConfigError::InvalidNumber);
    }
    let start: usize = if text.get_char(0) == '+' {
        1
    } else {
        0
    };
    if start == len {
        assert(unsigned_part(text@).len() == 0);
        return Err(ConfigError::InvalidNumber);
    }
    let ghost digits = unsigned_part(text@);
    assert(digits =~= text@.subrange(start as int, len as int));
    let mut value: u64 = 0;
    let mut i: usize = start;
    assert(digits.take(0) =~= Seq::<char>::empty());
    while i < len
        invariant
            start <= i <= len,
            len == text@.len(),
            digits == text@.subrange(start as int, len as int),
            digits == unsigned_part(text@),
            forall|j: int| 0 <= j < i - start ==> is_digit(#[trigger] digits[j]),
            value == decimal_value(digits.take(i - start)),
            value <= u32::MAX,
        decreases len - i,
    {
        let c: char = text.get_char(i);
        assert(c == digits[i - start]);
        if !(c >= '0' && c <= '9') {
            assert(!is_digit(digits[i - start]));
            return Err(ConfigError::InvalidNumber);
        }
        let digit: u64 = (c as u32 - '0' as u32) as u64;
        let next: u64 = value * 10 + digit;
        proof {
            assert(digits.take(i - start + 1).drop_last() =~= digits.take(i - start));
            assert(digits.take(i - start + 1).last() == c);
            assert(next == decimal_value(digits.take(i - start + 1)));
        }
        if next > 0xffff_ffff {
            proof {
                if forall|j: int| 0 <= j < digits.len() ==> is_digit(#[trigger] digits[j]) {
                    lemma_decimal_value_grows(digits, i - start + 1);
                }
            }
            return Err(ConfigError::InvalidNumber);
        }
        value = next;
        i = i + 1;
    }
    assert(digits.take(len - start) =~= digits);
    Ok(value as u32)
}

/// What a count is where its text may be missing: the default without a
/// text, the number that the text stands for with one.
pub open spec fn count_or(text: Option<&str>, default: u32) -> Result<u32, ConfigError> {
    match text {
        None => Ok(default),
        Some(t) => match parsed_count(t@) {
            Some(n) => Ok(n),
            None => Err(ConfigError::InvalidNumber),
        },
    }
}

/// Reads a count whose text may be missing.
pub fn parse_count_or(text: Option<&str>, default: u32) -> (r: Result<u32, ConfigError>)
    ensures
        r == count_or(text, default),
{
    match text {
        None => Ok(default),
        Some(t) => parse_count(t),
    }
}

/// What `LoadProfile::new` answers for the three counts.
pub open spec fn checked_counts(total_requests: u32, concurrency: u32) -> Result<(), ConfigError> {
    if concurrency == 0 {
        Err(ConfigError::ZeroConcurrency)
    } else if total_requests < concurrency {
        Err(ConfigError::ConcurrencyExceedsTotal)
    } else {
        Ok(())
    }
}

/// What `LoadProfile::from_options` answers: the counts are read in the
/// order requests, concurrency, rate, timeout, and the first text that is
/// no count is the error; then the counts are checked against each other.
pub open spec fn profile_from_options(
    requests: Option<&str>,
    concurrency: Option<&str>,
    rate: Option<&str>,
    timeout_seconds: Option<&str>,
) -> Result<ProfileModel, ConfigError> {
    match count_or(requests, DEFAULT_TOTAL_REQUESTS) {
        Err(e) => Err(e),
        Ok(n) => match count_or(concurrency, DEFAULT_CONCURRENCY) {
            Err(e) => Err(e),
            Ok(c) => match count_or(rate, DEFAULT_RATE_PER_SECOND) {
                Err(e) => Err(e),
                Ok(q) => match count_or(timeout_seconds, DEFAULT_TIMEOUT_SECONDS) {
                    Err(e) => Err(e),
                    Ok(t) => match checked_counts(n, c) {
                        Err(e) => Err(e),
                        Ok(_) => Ok(
                            ProfileModel {
                                total_requests: n as nat,
                                concurrency: c as nat,
                                rate_per_second: q as nat,
                                per_request_timeout_micros: (t * 1_000_000) as nat,
                                worker_count: 1,
                                compression: true,
                                keep_alive: true,
                            },
                        ),
                    },
                },
            },
        },
    }
}

/// Immutable load parameters of one run. A value of this type is always
/// runnable: construction rejects every other combination.
#[derive(Clone, Copy, Debug)]
pub struct LoadProfile {
    total_requests: u32,
    concurrency: u32,
    rate_per_second: u32,
    per_request_timeout_micros: u64,
    worker_count: u32,
    compression: bool,
    keep_alive: bool,
}

impl View for LoadProfile {
    type V = ProfileModel;

    closed spec fn view(&self) -> ProfileModel {
        ProfileModel {
            total_requests: self.total_requests as nat,
            concurrency: self.concurrency as nat,
            rate_per_second: self.rate_per_second as nat,
            per_request_timeout_micros: self.per_request_timeout_micros as nat,
            worker_count: self.worker_count as nat,
            compression: self.compression,
            keep_alive: self.keep_alive,
        }
    }
}

impl LoadProfile {
    #[verifier::type_invariant]
    spec fn runnable(self) -> bool {
        1 <= self.concurrency <= self.total_requests
    }

    /// Validates the three counts. A rate of zero means that only the
    /// concurrency level bounds admission. The new profile has no
    /// per-request timeout, one worker, compression and keep-alive on.
    pub fn new(total_requests: u32, concurrency: u32, rate_per_second: u32) -> (r: Result<
        LoadProfile,
        ConfigError,
    >)
        ensures
            match r {
                Ok(p) => checked_counts(total_requests, concurrency) is Ok && p@ == (ProfileModel {
                    total_requests: total_requests as nat,
                    concurrency: concurrency as nat,
                    rate_per_second: rate_per_second as nat,
                    per_request_timeout_micros: 0,
                    worker_count: 1,
                    compression: true,
                    keep_alive: true,
                }),
                Err(e) => checked_counts(total_requests, concurrency) == Err::<(), ConfigError>(e),
            },
    {
        if concurrency == 0 {
            Err(ConfigError::ZeroConcurrency)
        } else if total_requests < concurrency {
            Err(ConfigError::ConcurrencyExceedsTotal)
        } else {
            Ok(
                LoadProfile {
                    total_requests,
                    concurrency,
                    rate_per_second,
                    per_request_timeout_micros: 0,
                    worker_count: 1,
                    compression: true,
                    keep_alive: true,
                },
            )
        }
    }

    /// Builds a profile from the texts of the four numeric options, each
    /// of which may be missing. The timeout is given in whole seconds, zero
    /// for none.
    pub fn from_options(
        requests: Option<&str>,
        concurrency: Option<&str>,
        rate: Option<&str>,
        timeout_seconds: Option<&str>,
    ) -> (r: Result<LoadProfile, ConfigError>)
        ensures
            match r {
                Ok(p) => profile_from_options(requests, concurrency, rate, timeout_seconds) == Ok::<
                    ProfileModel,
                    ConfigError,
                >(p@),
                Err(e) => profile_from_options(requests, concurrency, rate, timeout_seconds)
                    == Err::<ProfileModel, ConfigError>(e),
            },
    {
        let n: u32 = match parse_count_or(requests, DEFAULT_TOTAL_REQUESTS) {
            Ok(n) => n,
            Err(e) => {
                return Err(e);
            },
        };
        let c: u32 = match parse_count_or(concurrency, DEFAULT_CONCURRENCY) {
            Ok(c) => c,
            Err(e) => {
                return Err(e);
            },
        };
        let q: u32 = match parse_count_or(rate, DEFAULT_RATE_PER_SECOND) {
            Ok(q) => q,
            Err(e) => {
                return Err(e);
            },
        };
        let t: u32 = match parse_count_or(timeout_seconds, DEFAULT_TIMEOUT_SECONDS) {
            Ok(t) => t,
            Err(e) => {
                return Err(e);
            },
        };
        match LoadProfile::new(n, c, q) {
            Ok(profile) => Ok(profile.with_timeout_micros(t as u64 * 1_000_000)),
            Err(e) => Err(e),
        }
    }

    /// The same profile with another per-request timeout, in microseconds;
    /// zero for none.
    pub fn with_timeout_micros(self, micros: u64) -> (p: LoadProfile)
        ensures
            p@ == (ProfileModel { per_request_timeout_micros: micros as nat, ..self@ }),
    {
        proof {
            use_type_invariant(&self);
        }
        LoadProfile {
            total_requests: self.total_requests,
            concurrency: self.concurrency,
            rate_per_second: self.rate_per_second,
            per_request_timeout_micros: micros,
            worker_count: self.worker_count,
            compression: self.compression,
            keep_alive: self.keep_alive,
        }
    }

    /// The same profile with another number of workers.
    pub fn with_worker_count(self, workers: u32) -> (p: LoadProfile)
        ensures
            p@ == (ProfileModel { worker_count: workers as nat, ..self@ }),
    {
        proof {
            use_type_invariant(&self);
        }
        LoadProfile {
            total_requests: self.total_requests,
            concurrency: self.concurrency,
            rate_per_second: self.rate_per_second,
            per_request_timeout_micros: self.per_request_timeout_micros,
            worker_count: workers,
            compression: self.compression,
            keep_alive: self.keep_alive,
        }
    }

    /// The same profile with compression switched on or off.
    pub fn with_compression(self, on: bool) -> (p: LoadProfile)
        ensures
            p@ == (ProfileModel { compression: on, ..self@ }),
    {
        proof {
            use_type_invariant(&self);
        }
        LoadProfile {
            total_requests: self.total_requests,
            concurrency: self.concurrency,
            rate_per_second: self.rate_per_second,
            per_request_timeout_micros: self.per_request_timeout_micros,
            worker_count: self.worker_count,
            compression: on,
            keep_alive: self.keep_alive,
        }
    }

    /// The same profile with the reuse of connections switched on or off.
    pub fn with_keep_alive(self, on: bool) -> (p: LoadProfile)
        ensures
            p@ == (ProfileModel { keep_alive: on, ..self@ }),
    {
        proof {
            use_type_invariant(&self);
        }
        LoadProfile {
            total_requests: self.total_requests,
            concurrency: self.concurrency,
            rate_per_second: self.rate_per_second,
            per_request_timeout_micros: self.per_request_timeout_micros,
            worker_count: self.worker_count,
            compression: self.compression,
            keep_alive: on,
        }
    }

    /// The per-request timeout in microseconds; zero for none.
    pub fn per_request_timeout_micros(&self) -> (micros: u64)
        ensures
            micros == self@.per_request_timeout_micros,
    {
        self.per_request_timeout_micros
    }

    /// The number of workers that the transport may use.
    pub fn worker_count(&self) -> (n: u32)
        ensures
            n == self@.worker_count,
    {
        self.worker_count
    }

    /// Whether responses may be compressed.
    pub fn compression(&self) -> (on: bool)
        ensures
            on == self@.compression,
    {
        self.compression
    }

    /// Whether connections are reused between requests.
    pub fn keep_alive(&self) -> (on: bool)
        ensures
            on == self@.keep_alive,
    {
        self.keep_alive
    }

    /// The number of requests of the run.
    pub fn total_requests(&self) -> (n: u32)
        ensures
            n == self@.total_requests,
            self@.runnable(),
    {
        proof {
            use_type_invariant(self);
        }
        self.total_requests
    }

    /// The number of requests that may be in flight at once.
    pub fn concurrency(&self) -> (n: u32)
        ensures
            n == self@.concurrency,
            self@.runnable(),
    {
        proof {
            use_type_invariant(self);
        }
        self.concurrency
    }

    /// The admissions allowed per second; zero for no limit.
    pub fn rate_per_second(&self) -> (n: u32)
        ensures
            n == self@.rate_per_second,
    {
        self.rate_per_second
    }
}

} // verus!
