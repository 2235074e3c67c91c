//! Data model of the signature catalog, catalog validation, and parsing of
//! command-line parameters into a configuration value.

use vstd::prelude::*;
use vstd::string::*;

verus! {

/// Run configuration gathered from command-line parameters.
#[derive(Debug)]
pub struct LacConf {
    pub file_path: String,
    pub debug: bool,
    pub help: bool,
    pub threads: u16,
    pub max_targets: usize,
    pub print_records: bool,
}

/// The mathematical content of a `LacConf`.
pub struct LacConfModel {
    pub file_path: Seq<char>,
    pub debug: bool,
    pub help: bool,
    pub threads: u16,
    pub max_targets: usize,
    pub print_records: bool,
}

impl View for LacConf {
    type V = LacConfModel;

    open spec fn view(&self) -> LacConfModel {
        LacConfModel {
            file_path: self.file_path@,
            debug: self.debug,
            help: self.help,
            threads: self.threads,
            max_targets: self.max_targets,
            print_records: self.print_records,
        }
    }
}

/// The configuration before any parameter is read: no file, four threads, a
/// thousand targets at most, every flag off.
pub open spec fn default_conf() -> LacConfModel {
    LacConfModel {
        file_path: Seq::empty(),
        debug: false,
        help: false,
        threads: 4,
        max_targets: 1000,
        print_records: false,
    }
}

pub open spec fn is_digit_char(c: char) -> bool {
    '0' <= c && c <= '9'
}

/// The numeric value of a sequence of decimal digits.
pub open spec fn digits_value(s: Seq<char>) -> int
    decreases s.len(),
{
    if s.len() == 0 {
        0
    } else {
        digits_value(s.drop_last()) * 10 + (s.last() as int - '0' as int)
    }
}

/// The value a string denotes as an unsigned decimal integer: an optional
/// leading plus sign followed by at least one digit, unbounded.
pub open spec fn decimal_value(s: Seq<char>) -> Option<int> {
    let ds = if s.len() > 0 && s[0] == '+' {
        s.skip(1)
    } else {
        s
    };
    if ds.len() > 0 && (forall|i: int| 0 <= i < ds.len() ==> is_digit_char(ds[i])) {
        Some(digits_value(ds))
    } else {
        None
    }
}

/// What `str::parse::<u16>` accepts and returns.
pub open spec fn parsed_u16(s: Seq<char>) -> Option<u16> {
    match decimal_value(s) {
        Some(v) => if v <= u16::MAX {
            Some(v as u16)
        } else {
            None
        },
        None => None,
    }
}

/// What `str::parse::<usize>` accepts and returns.
pub open spec fn parsed_usize(s: Seq<char>) -> Option<usize> {
    match decimal_value(s) {
        Some(v) => if v <= usize::MAX {
            Some(v as usize)
        } else {
            None
        },
        None => None,
    }
}

/// Relies on `str::parse::<u16>`: an optional leading plus sign followed by
/// decimal digits, rejected when empty, malformed, or above `u16::MAX`.
#[verifier::external_body]
fn parse_u16_str(s: &str) -> (r: Option<u16>)
    ensures
        r == parsed_u16(s@),
{
    s.parse::<u16>().ok()
}

/// Relies on `str::parse::<usize>`: an optional leading plus sign followed by
/// decimal digits, rejected when empty, malformed, or above `usize::MAX`.
#[verifier::external_body]
fn parse_usize_str(s: &str) -> (r: Option<usize>)
    ensures
        r == parsed_usize(s@),
{
    s.parse::<usize>().ok()
}

fn string_matches(a: &String, b: &str) -> (r: bool)
    ensures
        r == (a@ == b@),
{
    let bs = String::from_str(b);
    *a == bs
}

/// One pass over the remaining parameters, threading the configuration built
/// so far: flags set their field, value-taking parameters consume the next
/// argument and fail without a valid one, unknown arguments are ignored.
pub open spec fn cli_steps(args: Seq<Seq<char>>, conf: LacConfModel) -> Result<
    LacConfModel,
    Seq<char>,
>
    decreases args.len(),
{
    if args.len() == 0 {
        Ok(conf)
    } else if args[0] == "--file"@ {
        if args.len() == 1 {
            Err("Invalid value for parameter --file"@)
        } else {
            cli_steps(args.skip(2), LacConfModel { file_path: args[1], ..conf })
        }
    } else if args[0] == "--debug"@ {
        cli_steps(args.skip(1), LacConfModel { debug: true, ..conf })
    } else if args[0] == "--help"@ {
        cli_steps(args.skip(1), LacConfModel { help: true, ..conf })
    } else if args[0] == "--threads"@ {
        if args.len() == 1 {
            Err("Invalid value for parameter --threads"@)
        } else {
            match parsed_u16(args[1]) {
                Some(t) => cli_steps(args.skip(2), LacConfModel { threads: t, ..conf }),
                None => Err("Invalid value for parameter --threads"@),
            }
        }
    } else if args[0] == "--max-targets"@ {
        if args.len() == 1 {
            Err("Invalid value for parameter --max-targets"@)
        } else {
            match parsed_usize(args[1]) {
                Some(m) => cli_steps(args.skip(2), LacConfModel { max_targets: m, ..conf }),
                None => Err("Invalid value for parameter --max-targets"@),
            }
        }
    } else if args[0] == "--print-records"@ {
        cli_steps(args.skip(1), LacConfModel { print_records: true, ..conf })
    } else {
        cli_steps(args.skip(1), conf)
    }
}

/// The full parameter-parsing rule: fold the arguments over the default
/// configuration, then demand a file path unless help or record printing was
/// asked for, and refuse more threads than targets.
pub open spec fn cli_spec(args: Seq<Seq<char>>) -> Result<LacConfModel, Seq<char>> {
    match cli_steps(args, default_conf()) {
        Err(e) => Err(e),
        Ok(c) => if c.file_path.len() == 0 && !c.help && !c.print_records {
            Err("Parameter --file is mandatory"@)
        } else if c.threads > c.max_targets {
            Err("The number of threads can't be greater than the number of max targets"@)
        } else {
            Ok(c)
        },
    }
}

/// Parses the command-line parameters of a run (the argument list as handed
/// to the process) into a configuration, or reports the first offending
/// parameter.
pub fn get_cli_params(args: Vec<String>) -> (r: Result<LacConf, &'static str>)
    ensures
        (match r {
            Ok(conf) => cli_spec(args.deep_view()) == Ok::<LacConfModel, Seq<char>>(conf@),
            Err(e) => cli_spec(args.deep_view()) == Err::<LacConfModel, Seq<char>>(e@),
        }),
{
    let mut conf = LacConf {
        file_path: String::new(),
        debug: false,
        help: false,
        threads: 4,
        max_targets: 1000,
        print_records: false,
    };
    let mut i: usize = 0;
    proof {
        assert(args.deep_view().skip(0) =~= args.deep_view());
    }
    while i < args.len()
        invariant
            i <= args@.len(),
            args.deep_view().len() == args@.len(),
            forall|j: int| 0 <= j < args@.len() ==> args.deep_view()[j] == args@[j]@,
            cli_steps(args.deep_view(), default_conf()) == cli_steps(
                args.deep_view().skip(i as int),
                conf@,
            ),
        decreases args@.len() - i,
    {
        let ghost rest = args.deep_view().skip(i as int);
        proof {
            assert(rest[0] == args.deep_view()[i as int]);
            assert(rest.skip(1) =~= args.deep_view().skip(i + 1));
            if i + 1 < args@.len() {
                assert(rest.skip(2) =~= args.deep_view().skip(i + 2));
                assert(rest[1] == args.deep_view()[i + 1]);
            }
        }
        let arg = &args[i];
        if string_matches(arg, "--file") {
            if i + 1 >= args.len() {
                return Err("Invalid value for parameter --file");
            }
            conf.file_path = args[i + 1].clone();
            i = i + 2;
        } else if string_matches(arg, "--debug") {
            conf.debug = true;
            i = i + 1;
        } else if string_matches(arg, "--help") {
            conf.help = true;
            i = i + 1;
        } else if string_matches(arg, "--threads") {
            if i + 1 >= args.len() {
                return Err("Invalid value for parameter --threads");
            }
            match parse_u16_str(args[i + 1].as_str()) {
                Some(t) => {
                    conf.threads = t;
                },
                None => {
                    return Err("Invalid value for parameter --threads");
                },
            }
            i = i + 2;
        } else if string_matches(arg, "--max-targets") {
            if i + 1 >= args.len() {
                return Err("Invalid value for parameter --max-targets");
            }
            match parse_usize_str(args[i + 1].as_str()) {
                Some(m) => {
                    conf.max_targets = m;
                },
                None => {
                    return Err("Invalid value for parameter --max-targets");
                },
            }
            i = i + 2;
        } else if string_matches(arg, "--print-records") {
            conf.print_records = true;
            i = i + 1;
        } else {
            i = i + 1;
        }
    }
    proof {
        assert(args.deep_view().skip(args@.len() as int) =~= Seq::<Seq<char>>::empty());
    }
    if conf.file_path.as_str().is_empty() && !conf.help && !conf.print_records {
        return Err("Parameter --file is mandatory");
    }
    if conf.threads as usize > conf.max_targets {
        return Err("The number of threads can't be greater than the number of max targets");
    }
    Ok(conf)
}

/// One signature rule: how to recognize a service in a response body and how
/// to resolve its version.
pub struct Definition {
    pub name: String,
    pub protocol: String,
    pub options: Options,
    pub service: Service,
    pub versions: Option<Versions>,
}

/// Probe options attached to a definition; the engine itself only consumes
/// the service and version parts, these travel with the catalog.
pub struct Options {
    pub ports: Vec<u16>,
    pub timeout: Option<bool>,
    pub message: Option<String>,
}

/// How to recognize that the service is present: a regular expression applied
/// to the response body, and whether a bare "service detected" result is
/// recorded on a match.
pub struct Service {
    pub regex: String,
    pub log: bool,
}

/// The version-resolution strategy of a definition: exactly one of the two
/// variants is present in a well-formed catalog.
pub struct Versions {
    pub semver: Option<SemverVersions>,
    pub regex: Option<Vec<RegexVersion>>,
}

/// Semantic-version strategy: an extraction pattern plus an ordered list of
/// inclusive version ranges.
pub struct SemverVersions {
    pub regex: String,
    pub ranges: Vec<RangeVersion>,
}

/// One inclusive semantic-version range with its human-readable description.
pub struct RangeVersion {
    pub from: String,
    pub to: String,
    pub description: String,
}

/// One entry of the table strategy: an independent regex whose presence pins
/// an exact version and description.
pub struct RegexVersion {
    pub regex: String,
    pub version: String,
    pub description: String,
}

/// A definition carries at most one version strategy: when the `versions`
/// field is present, exactly one of its two variants is set.
pub open spec fn definition_wf(d: Definition) -> bool {
    match d.versions {
        Some(v) => (v.semver is Some) <==> (v.regex is None),
        None => true,
    }
}

/// Every definition of the catalog is well-formed.
pub open spec fn catalog_wf(defs: Seq<Definition>) -> bool {
    forall|i: int| 0 <= i < defs.len() ==> definition_wf(defs[i])
}

/// Checks that every definition selects at most one version strategy, the
/// shape the detection engine's precondition demands of a validated catalog.
pub fn check_catalog(definitions: &Vec<Definition>) -> (r: bool)
    ensures
        r == catalog_wf(definitions@),
{
    let mut i: usize = 0;
    while i < definitions.len()
        invariant
            i <= definitions@.len(),
            forall|j: int| 0 <= j < i ==> definition_wf(definitions@[j]),
        decreases definitions@.len() - i,
    {
        let ok = match &definitions[i].versions {
            Some(v) => v.semver.is_some() == v.regex.is_none(),
            None => true,
        };
        if !ok {
            assert(!definition_wf(definitions@[i as int]));
            return false;
        }
        i = i + 1;
    }
    true
}

/// A definition that follows the custom TCP protocol must carry a probe
/// message.
pub open spec fn def_message_ok(d: Definition) -> bool {
    d.protocol@ == "tcp/custom"@ ==> d.options.message is Some
}

/// Checks the loader-level structural rule on a deserialized catalog: every
/// definition with protocol `tcp/custom` carries the mandatory `message`
/// option. The first offending definition is reported by name.
pub fn validate_definitions(definitions: &Vec<Definition>) -> (r: Result<(), String>)
    ensures
        r is Ok <==> (forall|i: int|
            0 <= i < definitions@.len() ==> def_message_ok(definitions@[i])),
        r matches Err(e) ==> exists|i: int|
            0 <= i < definitions@.len() && !#[trigger] def_message_ok(definitions@[i]) && (
            forall|j: int| 0 <= j < i ==> def_message_ok(definitions@[j])) && e@
                == "Missing mandatory option 'message' for protocol tcp/custom. Service: "@
                + definitions@[i].name@,
{
    let mut i: usize = 0;
    while i < definitions.len()
        invariant
            i <= definitions@.len(),
            forall|j: int| 0 <= j < i ==> def_message_ok(definitions@[j]),
        decreases definitions@.len() - i,
    {
        let def = &definitions[i];
        if string_matches(&def.protocol, "tcp/custom") && def.options.message.is_none() {
            let msg = String::from_str(
                "Missing mandatory option 'message' for protocol tcp/custom. Service: ",
            ).concat(def.name.as_str());
            assert(!def_message_ok(definitions@[i as int]));
            return Err(msg);
        }
        i = i + 1;
    }
    Ok(())
}

} // verus!
