//! Settings of the long-running tests, read from the environment of the test process.
use vstd::prelude::*;
use crate::domain::spec::NativeString;
use crate::platform::text::{chars_of, read_number};

verus! {

/// Names the setting of the seed.
pub const STRESS_SEED: &'static str = "SHEPHERD_STRESS_SEED";

/// Names the setting of the runtimes to test on.
pub const STRESS_RUNTIME: &'static str = "SHEPHERD_STRESS_RUNTIME";

/// Names the setting of the number of stress iterations.
pub const STRESS_ITERATIONS: &'static str = "SHEPHERD_STRESS_ITERATIONS";

/// Names the setting of the number of soak rounds.
pub const SOAK_ROUNDS: &'static str = "SHEPHERD_SOAK_ROUNDS";

/// Names the setting of the memory budget of a soak.
pub const SOAK_RSS_BUDGET_MIB: &'static str = "SHEPHERD_SOAK_RSS_BUDGET_MIB";

/// Names the setting of the number of cases per property.
pub const PROPERTY_CASES: &'static str = "PROPTEST_CASES";

/// Names the setting of the delegated control group.
pub const CGROUP_ROOT: &'static str = "SHEPHERD_CGROUP_ROOT";

/// The fewest iterations or rounds.
pub const LEAST_ROUNDS: u64 = 6;

/// The most iterations or rounds.
pub const MOST_ROUNDS: u64 = 100_000;

/// The largest memory budget, in mebibytes.
pub const LARGEST_BUDGET_MIB: u64 = 1024;

/// A runtime to test on.
#[derive(Debug, Clone, Copy, PartialEq, Eq, Structural)]
pub enum RuntimeFlavor {
    /// One thread.
    Current,
    /// Several threads.
    Multi,
}

/// How long a test may take.
#[derive(Debug, Clone, Copy, PartialEq, Eq, Structural)]
pub enum StressMode {
    /// A quick run with fixed numbers.
    Smoke,
    /// A long run with configured numbers.
    Long,
}

/// Settings of a stress test.
#[derive(Debug, PartialEq, Eq)]
pub struct StressConfig {
    /// The seed.
    pub seed: u64,
    /// The runtimes to test on.
    pub runtimes: Vec<RuntimeFlavor>,
    /// How many iterations to run.
    pub iterations: u64,
}

/// Settings of a soak test.
#[derive(Debug, PartialEq, Eq)]
pub struct SoakConfig {
    /// The seed.
    pub seed: u64,
    /// The runtimes to test on.
    pub runtimes: Vec<RuntimeFlavor>,
    /// How many rounds to run.
    pub rounds: u64,
    /// How much resident memory may grow, in bytes.
    pub rss_budget_bytes: u64,
}

/// What is wrong with a setting.
#[derive(Debug, PartialEq, Eq)]
pub enum SettingProblem {
    /// It is not text.
    NotUnicode,
    /// It is not an unsigned integer in range.
    NotANumber,
    /// It names no runtime.
    UnknownRuntime,
    /// It is out of bounds.
    OutOfBounds,
    /// It is missing or empty.
    Missing,
}

/// A setting that cannot be used.
#[derive(Debug, PartialEq, Eq)]
pub struct InvalidSetting {
    /// The name of the setting.
    pub variable: &'static str,
    /// What is wrong with it.
    pub problem: SettingProblem,
}

/// The bytes of a setting as text, or what is wrong with it. Text is a setting whose bytes are
/// valid UTF-8.
pub open spec fn as_text(bytes: Seq<u8>) -> Option<Seq<char>> {
    if vstd::utf8::valid_utf8(bytes) {
        Some(vstd::utf8::decode_utf8(bytes))
    } else {
        None
    }
}

/// Calls `core::str::from_utf8`: it gives the text that the bytes encode if they are valid
/// UTF-8, and an error otherwise.
#[verifier::external_body]
fn decode(bytes: &Vec<u8>) -> (text: Option<&str>)
    ensures
        match text {
            Some(found) => as_text(bytes@) == Some(found@),
            None => as_text(bytes@) is None,
        },
{
    match core::str::from_utf8(bytes) {
        Ok(text) => Some(text),
        Err(_) => None,
    }
}

fn same_text(left: &str, right: &str) -> (same: bool)
    ensures
        same == (left@ == right@),
{
    let chars: Vec<char> = chars_of(left);
    crate::platform::text::is_text(&chars, right)
}

/// The environment that settings are read from.
#[derive(Debug)]
pub struct TestEnvironment {
    entries: Vec<(&'static str, NativeString)>,
}

/// The first value of a name among `entries`.
pub open spec fn value_of(entries: Seq<(&'static str, NativeString)>, name: Seq<char>) -> Option<
    Seq<u8>,
>
    decreases entries.len(),
{
    if entries.len() == 0 {
        None
    } else if entries[0].0@ == name {
        Some(entries[0].1@)
    } else {
        value_of(entries.skip(1), name)
    }
}

/// The number of a setting that is at most `most`, `default` if it is not set, or what is wrong
/// with it.
pub open spec fn number_of(value: Option<Seq<u8>>, default: u64, most: u64) -> Result<
    u64,
    SettingProblem,
> {
    match value {
        None => Ok(default),
        Some(bytes) => match as_text(bytes) {
            None => Err(SettingProblem::NotUnicode),
            Some(text) => match crate::platform::text::numeral(text) {
                Ok(number) => if number <= most {
                    Ok(number)
                } else {
                    Err(SettingProblem::NotANumber)
                },
                Err(_) => Err(SettingProblem::NotANumber),
            },
        },
    }
}

/// The runtimes of a setting, or what is wrong with it.
pub open spec fn runtimes_of(value: Option<Seq<u8>>) -> Result<Seq<RuntimeFlavor>, SettingProblem> {
    match value {
        None => Ok(seq![RuntimeFlavor::Current, RuntimeFlavor::Multi]),
        Some(bytes) => match as_text(bytes) {
            None => Err(SettingProblem::NotUnicode),
            Some(text) => if text == "both"@ {
                Ok(seq![RuntimeFlavor::Current, RuntimeFlavor::Multi])
            } else if text == "current"@ {
                Ok(seq![RuntimeFlavor::Current])
            } else if text == "multi"@ {
                Ok(seq![RuntimeFlavor::Multi])
            } else {
                Err(SettingProblem::UnknownRuntime)
            },
        },
    }
}

/// A number within bounds, or what is wrong with it.
pub open spec fn bounded(
    value: Result<u64, SettingProblem>,
    least: u64,
    most: u64,
) -> Result<u64, SettingProblem> {
    match value {
        Ok(number) => if least <= number <= most {
            Ok(number)
        } else {
            Err(SettingProblem::OutOfBounds)
        },
        Err(problem) => Err(problem),
    }
}

/// A memory budget of `mib` mebibytes, in bytes.
pub open spec fn budget_of(mib: u64) -> int {
    mib * 1024 * 1024
}

/// `problem` is what is wrong with setting `name`.
pub open spec fn blames(error: InvalidSetting, name: Seq<char>, problem: SettingProblem) -> bool {
    error.variable@ == name && error.problem == problem
}

impl TestEnvironment {
    /// The value of a setting.
    pub closed spec fn setting(self, name: Seq<char>) -> Option<Seq<u8>> {
        value_of(self.entries@, name)
    }

    /// An environment that holds `entries`; the first of a name counts.
    #[must_use]
    pub fn new(entries: Vec<(&'static str, NativeString)>) -> (environment: Self)
        ensures
            forall|name: Seq<char>| #[trigger]
                environment.setting(name) == value_of(entries@, name),
    {
        TestEnvironment { entries }
    }

    fn lookup(&self, name: &str) -> (value: Option<&NativeString>)
        ensures
            match value {
                Some(found) => self.setting(name@) == Some(found@),
                None => self.setting(name@) is None,
            },
    {
        let mut i: usize = 0;
        assert(self.entries@.skip(0) =~= self.entries@);
        while i < self.entries.len()
            invariant
                i <= self.entries@.len(),
                value_of(self.entries@, name@) == value_of(self.entries@.skip(i as int), name@),
            decreases self.entries@.len() - i,
        {
            assert(self.entries@.skip(i as int).skip(1) =~= self.entries@.skip(i + 1));
            assert(self.entries@.skip(i as int)[0] == self.entries@[i as int]);
            if same_text(self.entries[i].0, name) {
                return Some(&self.entries[i].1);
            }
            i = i + 1;
        }
        None
    }

    fn number(&self, name: &'static str, default: u64, most: u64) -> (number: Result<
        u64,
        InvalidSetting,
    >)
        ensures
            match (number, number_of(self.setting(name@), default, most)) {
                (Ok(value), Ok(wanted)) => value == wanted,
                (Err(error), Err(problem)) => blames(error, name@, problem),
                _ => false,
            },
    {
        match self.lookup(name) {
            None => Ok(default),
            Some(value) => match decode(&value.bytes) {
                None => Err(
                    InvalidSetting { variable: name, problem: SettingProblem::NotUnicode },
                ),
                Some(text) => match read_number(&chars_of(text)) {
                    Ok(number) => if number <= most {
                        Ok(number)
                    } else {
                        Err(InvalidSetting { variable: name, problem: SettingProblem::NotANumber })
                    },
                    Err(_) => Err(
                        InvalidSetting { variable: name, problem: SettingProblem::NotANumber },
                    ),
                },
            },
        }
    }

    fn within(
        &self,
        name: &'static str,
        number: u64,
        least: u64,
        most: u64,
    ) -> (checked: Result<u64, InvalidSetting>)
        ensures
            match (checked, bounded(Ok(number), least, most)) {
                (Ok(value), Ok(wanted)) => value == wanted,
                (Err(error), Err(problem)) => blames(error, name@, problem),
                _ => false,
            },
    {
        if least <= number && number <= most {
            Ok(number)
        } else {
            Err(InvalidSetting { variable: name, problem: SettingProblem::OutOfBounds })
        }
    }

    fn runtimes(&self) -> (runtimes: Result<Vec<RuntimeFlavor>, InvalidSetting>)
        ensures
            match (runtimes, runtimes_of(self.setting(STRESS_RUNTIME@))) {
                (Ok(found), Ok(wanted)) => found@ == wanted,
                (Err(error), Err(problem)) => blames(error, STRESS_RUNTIME@, problem),
                _ => false,
            },
    {
        let mut found: Vec<RuntimeFlavor> = Vec::new();
        let value = match self.lookup(STRESS_RUNTIME) {
            None => {
                found.push(RuntimeFlavor::Current);
                found.push(RuntimeFlavor::Multi);
                assert(found@ =~= seq![RuntimeFlavor::Current, RuntimeFlavor::Multi]);
                return Ok(found);
            },
            Some(value) => value,
        };
        let text = match decode(&value.bytes) {
            Some(text) => text,
            None => {
                return Err(
                    InvalidSetting {
                        variable: STRESS_RUNTIME,
                        problem: SettingProblem::NotUnicode,
                    },
                );
            },
        };
        if same_text(text, "both") {
            found.push(RuntimeFlavor::Current);
            found.push(RuntimeFlavor::Multi);
            assert(found@ =~= seq![RuntimeFlavor::Current, RuntimeFlavor::Multi]);
            Ok(found)
        } else if same_text(text, "current") {
            found.push(RuntimeFlavor::Current);
            assert(found@ =~= seq![RuntimeFlavor::Current]);
            Ok(found)
        } else if same_text(text, "multi") {
            found.push(RuntimeFlavor::Multi);
            assert(found@ =~= seq![RuntimeFlavor::Multi]);
            Ok(found)
        } else {
            Err(
                InvalidSetting {
                    variable: STRESS_RUNTIME,
                    problem: SettingProblem::UnknownRuntime,
                },
            )
        }
    }

    /// How many iterations a stress test runs, or what is wrong with the setting. A smoke test
    /// does not read it.
    pub open spec fn iterations(self, mode: StressMode) -> Result<u64, SettingProblem> {
        match mode {
            StressMode::Smoke => Ok(36),
            StressMode::Long => bounded(
                number_of(self.setting(STRESS_ITERATIONS@), 2_000, u64::MAX),
                LEAST_ROUNDS,
                MOST_ROUNDS,
            ),
        }
    }

    /// The settings of a stress test.
    ///
    /// # Errors
    /// Returns [`InvalidSetting`] for the first setting that cannot be used: the runtimes, the
    /// iterations, the seed.
    pub fn stress(&self, mode: StressMode) -> (config: Result<StressConfig, InvalidSetting>)
        ensures
            match (
                runtimes_of(self.setting(STRESS_RUNTIME@)),
                self.iterations(mode),
                number_of(self.setting(STRESS_SEED@), 42, u64::MAX),
            ) {
                (Err(problem), _, _) => config is Err && blames(
                    config->Err_0,
                    STRESS_RUNTIME@,
                    problem,
                ),
                (Ok(_), Err(problem), _) => config is Err && blames(
                    config->Err_0,
                    STRESS_ITERATIONS@,
                    problem,
                ),
                (Ok(_), Ok(_), Err(problem)) => config is Err && blames(
                    config->Err_0,
                    STRESS_SEED@,
                    problem,
                ),
                (Ok(runtimes), Ok(iterations), Ok(seed)) => {
                    &&& config is Ok
                    &&& config->Ok_0.seed == seed
                    &&& config->Ok_0.runtimes@ == runtimes
                    &&& config->Ok_0.iterations == iterations
                },
            },
    {
        let runtimes = match self.runtimes() {
            Ok(runtimes) => runtimes,
            Err(error) => {
                return Err(error);
            },
        };
        let iterations: u64 = match mode {
            StressMode::Smoke => 36,
            StressMode::Long => {
                let number: u64 = match self.number(STRESS_ITERATIONS, 2_000, u64::MAX) {
                    Ok(number) => number,
                    Err(error) => {
                        return Err(error);
                    },
                };
                match self.within(STRESS_ITERATIONS, number, LEAST_ROUNDS, MOST_ROUNDS) {
                    Ok(number) => number,
                    Err(error) => {
                        return Err(error);
                    },
                }
            },
        };
        match self.number(STRESS_SEED, 42, u64::MAX) {
            Ok(seed) => Ok(StressConfig { seed, runtimes, iterations }),
            Err(error) => Err(error),
        }
    }

    /// How many rounds a soak test runs, or what is wrong with the setting. A smoke test does
    /// not read it.
    pub open spec fn rounds(self, mode: StressMode) -> Result<u64, SettingProblem> {
        match mode {
            StressMode::Smoke => Ok(6),
            StressMode::Long => bounded(
                number_of(self.setting(SOAK_ROUNDS@), 200, u64::MAX),
                LEAST_ROUNDS,
                MOST_ROUNDS,
            ),
        }
    }

    /// The settings of a soak test.
    ///
    /// # Errors
    /// Returns [`InvalidSetting`] for the first setting that cannot be used: the runtimes, the
    /// seed, the rounds, the memory budget.
    pub fn soak(&self, mode: StressMode) -> (config: Result<SoakConfig, InvalidSetting>)
        ensures
            match (
                runtimes_of(self.setting(STRESS_RUNTIME@)),
                number_of(self.setting(STRESS_SEED@), 42, u64::MAX),
                self.rounds(mode),
                bounded(
                    number_of(self.setting(SOAK_RSS_BUDGET_MIB@), 64, u64::MAX),
                    1,
                    LARGEST_BUDGET_MIB,
                ),
            ) {
                (Err(problem), _, _, _) => config is Err && blames(
                    config->Err_0,
                    STRESS_RUNTIME@,
                    problem,
                ),
                (Ok(_), Err(problem), _, _) => config is Err && blames(
                    config->Err_0,
                    STRESS_SEED@,
                    problem,
                ),
                (Ok(_), Ok(_), Err(problem), _) => config is Err && blames(
                    config->Err_0,
                    SOAK_ROUNDS@,
                    problem,
                ),
                (Ok(_), Ok(_), Ok(_), Err(problem)) => config is Err && blames(
                    config->Err_0,
                    SOAK_RSS_BUDGET_MIB@,
                    problem,
                ),
                (Ok(runtimes), Ok(seed), Ok(rounds), Ok(mib)) => {
                    &&& config is Ok
                    &&& config->Ok_0.seed == seed
                    &&& config->Ok_0.runtimes@ == runtimes
                    &&& config->Ok_0.rounds == rounds
                    &&& config->Ok_0.rss_budget_bytes == mib * 1024 * 1024
                    &&& config->Ok_0.rss_budget_bytes == budget_of(mib)
                },
            },
    {
        let base = match self.stress(StressMode::Smoke) {
            Ok(base) => base,
            Err(error) => {
                return Err(error);
            },
        };
        let rounds: u64 = match mode {
            StressMode::Smoke => 6,
            StressMode::Long => {
                let number: u64 = match self.number(SOAK_ROUNDS, 200, u64::MAX) {
                    Ok(number) => number,
                    Err(error) => {
                        return Err(error);
                    },
                };
                match self.within(SOAK_ROUNDS, number, LEAST_ROUNDS, MOST_ROUNDS) {
                    Ok(number) => number,
                    Err(error) => {
                        return Err(error);
                    },
                }
            },
        };
        let mib: u64 = match self.number(SOAK_RSS_BUDGET_MIB, 64, u64::MAX) {
            Ok(number) => match self.within(
                SOAK_RSS_BUDGET_MIB,
                number,
                1,
                LARGEST_BUDGET_MIB,
            ) {
                Ok(number) => number,
                Err(error) => {
                    return Err(error);
                },
            },
            Err(error) => {
                return Err(error);
            },
        };
        Ok(
            SoakConfig {
                seed: base.seed,
                runtimes: base.runtimes,
                rounds,
                rss_budget_bytes: mib * 1024 * 1024,
            },
        )
    }

    /// How many cases are tried per property.
    ///
    /// # Errors
    /// Returns [`InvalidSetting`] if the setting is not a positive number in range.
    pub fn property_cases(&self) -> (cases: Result<u32, InvalidSetting>)
        ensures
            match number_of(self.setting(PROPERTY_CASES@), 64, u32::MAX as u64) {
                Err(problem) => cases is Err && blames(cases->Err_0, PROPERTY_CASES@, problem),
                Ok(number) => if number == 0 {
                    cases is Err && blames(
                        cases->Err_0,
                        PROPERTY_CASES@,
                        SettingProblem::OutOfBounds,
                    )
                } else {
                    cases is Ok && cases->Ok_0 == number
                },
            },
    {
        match self.number(PROPERTY_CASES, 64, u32::MAX as u64) {
            Err(error) => Err(error),
            Ok(number) => if number == 0 {
                Err(
                    InvalidSetting {
                        variable: PROPERTY_CASES,
                        problem: SettingProblem::OutOfBounds,
                    },
                )
            } else {
                Ok(number as u32)
            },
        }
    }

    /// The delegated control group. Native paths are kept as they are.
    ///
    /// # Errors
    /// Returns [`InvalidSetting`] if the setting is missing or empty.
    pub fn cgroup_root(&self) -> (root: Result<&NativeString, InvalidSetting>)
        ensures
            match (root, self.setting(CGROUP_ROOT@)) {
                (Ok(path), Some(bytes)) => path@ == bytes && bytes.len() > 0,
                (Err(error), None) => blames(error, CGROUP_ROOT@, SettingProblem::Missing),
                (Err(error), Some(bytes)) => bytes.len() == 0 && blames(
                    error,
                    CGROUP_ROOT@,
                    SettingProblem::Missing,
                ),
                _ => false,
            },
    {
        match self.lookup(CGROUP_ROOT) {
            Some(path) => if path.bytes.len() > 0 {
                Ok(path)
            } else {
                Err(InvalidSetting { variable: CGROUP_ROOT, problem: SettingProblem::Missing })
            },
            None => Err(
                InvalidSetting { variable: CGROUP_ROOT, problem: SettingProblem::Missing },
            ),
        }
    }
}

/// A setting that is written as a number is read as that number, if it is not too large; one that
/// is not there has its default.
pub proof fn a_numeric_setting_is_read_back(value: nat, default: u64, most: u64)
    ensures
        ({
            let bytes = vstd::utf8::encode_utf8(crate::domain::text::decimal(value));
            let told = number_of(Some(bytes), default, most);
            &&& value <= most ==> told == Ok::<_, SettingProblem>(value as u64)
            &&& value > most ==> told == Err::<u64, _>(SettingProblem::NotANumber)
        }),
        number_of(None, default, most) == Ok::<_, SettingProblem>(default),
{
    let word = crate::domain::text::decimal(value);
    vstd::utf8::encode_utf8_valid_utf8(word);
    vstd::utf8::encode_utf8_decode_utf8(word);
    crate::platform::reading::written_numbers_are_read_back(value);
}

/// What is no number is refused, and what is no text is refused as such.
pub proof fn other_settings_are_refused(bytes: Seq<u8>, text: Seq<char>, default: u64, most: u64)
    ensures
        !vstd::utf8::valid_utf8(bytes) ==> number_of(Some(bytes), default, most) == Err::<u64, _>(
            SettingProblem::NotUnicode,
        ) && runtimes_of(Some(bytes)) == Err::<Seq<RuntimeFlavor>, _>(SettingProblem::NotUnicode),
        crate::platform::text::number(text) is None ==> number_of(
            Some(vstd::utf8::encode_utf8(text)),
            default,
            most,
        ) == Err::<u64, _>(SettingProblem::NotANumber),
{
    vstd::utf8::encode_utf8_valid_utf8(text);
    vstd::utf8::encode_utf8_decode_utf8(text);
    crate::platform::reading::only_digits_make_a_number(text);
}

/// A budget is told in bytes: a mebibyte more is 1 048 576 bytes more.
pub proof fn budgets_grow_by_mebibytes(mib: u64)
    ensures
        budget_of(0) == 0,
        mib < u64::MAX ==> budget_of((mib + 1) as u64) == budget_of(mib) + 1_048_576,
{
}

/// A setting names one runtime or both, and both are tested where it is not there.
pub proof fn runtimes_are_named(text: Seq<char>)
    ensures
        ({
            let told = runtimes_of(Some(vstd::utf8::encode_utf8(text)));
            &&& told is Ok <==> text == "both"@ || text == "current"@ || text == "multi"@
            &&& told is Err ==> told->Err_0 is UnknownRuntime
            &&& text == "both"@ ==> told->Ok_0 == seq![RuntimeFlavor::Current, RuntimeFlavor::Multi]
            &&& text == "current"@ ==> told->Ok_0 == seq![RuntimeFlavor::Current]
            &&& text == "multi"@ ==> told->Ok_0 == seq![RuntimeFlavor::Multi]
        }),
        runtimes_of(None) == Ok::<_, SettingProblem>(
            seq![RuntimeFlavor::Current, RuntimeFlavor::Multi],
        ),
{
    vstd::utf8::encode_utf8_valid_utf8(text);
    vstd::utf8::encode_utf8_decode_utf8(text);
    reveal_strlit("both");
    reveal_strlit("current");
    reveal_strlit("multi");
    assert("both"@.len() == 4 && "current"@.len() == 7 && "multi"@.len() == 5);
}

/// Of several entries of one name the first one counts, and entries of other names do not matter.
pub proof fn the_first_value_of_a_name_counts(
    entry: (&'static str, NativeString),
    later: Seq<(&'static str, NativeString)>,
    name: Seq<char>,
)
    ensures
        entry.0@ == name ==> value_of(seq![entry] + later, name) == Some(entry.1@),
        entry.0@ != name ==> value_of(seq![entry] + later, name) == value_of(later, name),
        value_of(Seq::empty(), name) is None,
{
    assert((seq![entry] + later).skip(1) =~= later);
}

/// A smoke test is fixed at 36 iterations and 6 rounds. A long test takes what is set, between 6
/// and 100 000, or 2000 iterations and 200 rounds.
pub proof fn tests_are_bounded(environment: TestEnvironment)
    ensures
        environment.iterations(StressMode::Smoke) == Ok::<_, SettingProblem>(36u64),
        environment.rounds(StressMode::Smoke) == Ok::<_, SettingProblem>(6u64),
        environment.setting(STRESS_ITERATIONS@) is None ==> environment.iterations(
            StressMode::Long,
        ) == Ok::<_, SettingProblem>(2000u64),
        environment.setting(SOAK_ROUNDS@) is None ==> environment.rounds(StressMode::Long) == Ok::<
            _,
            SettingProblem,
        >(200u64),
        environment.iterations(StressMode::Long) is Ok ==> 6 <= environment.iterations(
            StressMode::Long,
        )->Ok_0 <= 100_000,
        environment.rounds(StressMode::Long) is Ok ==> 6 <= environment.rounds(
            StressMode::Long,
        )->Ok_0 <= 100_000,
        forall|value: u64|
            environment.setting(STRESS_ITERATIONS@) == Some(
                vstd::utf8::encode_utf8(#[trigger] crate::domain::text::decimal(value as nat)),
            ) ==> {
                &&& 6 <= value <= 100_000 ==> environment.iterations(StressMode::Long) == Ok::<
                    _,
                    SettingProblem,
                >(value)
                &&& !(6 <= value <= 100_000) ==> environment.iterations(StressMode::Long) == Err::<
                    u64,
                    _,
                >(SettingProblem::OutOfBounds)
            },
        forall|value: u64|
            environment.setting(SOAK_ROUNDS@) == Some(
                vstd::utf8::encode_utf8(#[trigger] crate::domain::text::decimal(value as nat)),
            ) ==> {
                &&& 6 <= value <= 100_000 ==> environment.rounds(StressMode::Long) == Ok::<
                    _,
                    SettingProblem,
                >(value)
                &&& !(6 <= value <= 100_000) ==> environment.rounds(StressMode::Long) == Err::<
                    u64,
                    _,
                >(SettingProblem::OutOfBounds)
            },
{
    assert forall|value: u64|
        environment.setting(STRESS_ITERATIONS@) == Some(
            vstd::utf8::encode_utf8(#[trigger] crate::domain::text::decimal(value as nat)),
        ) implies ({
        &&& 6 <= value <= 100_000 ==> environment.iterations(StressMode::Long) == Ok::<
            _,
            SettingProblem,
        >(value)
        &&& !(6 <= value <= 100_000) ==> environment.iterations(StressMode::Long) == Err::<u64, _>(
            SettingProblem::OutOfBounds,
        )
    }) by {
        a_numeric_setting_is_read_back(value as nat, 2000, u64::MAX);
    }
    assert forall|value: u64|
        environment.setting(SOAK_ROUNDS@) == Some(
            vstd::utf8::encode_utf8(#[trigger] crate::domain::text::decimal(value as nat)),
        ) implies ({
        &&& 6 <= value <= 100_000 ==> environment.rounds(StressMode::Long) == Ok::<
            _,
            SettingProblem,
        >(value)
        &&& !(6 <= value <= 100_000) ==> environment.rounds(StressMode::Long) == Err::<u64, _>(
            SettingProblem::OutOfBounds,
        )
    }) by {
        a_numeric_setting_is_read_back(value as nat, 200, u64::MAX);
    }
}

} // verus!
