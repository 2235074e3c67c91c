//! The detection engine: scans a catalog of service definitions against one
//! response body, emitting a detection result for every signature that
//! matches and every version range or table entry that the resolved version
//! satisfies, in catalog order.

use std::io::Write;
use vstd::prelude::*;
use vstd::string::*;

use crate::utils::{catalog_wf, definition_wf, Definition, RangeVersion, RegexVersion};
use crate::version::{
    extract_version, normalized_version, parse_semver, semver_triple, triple_le, version_le,
};

verus! {

/// One emitted finding: the matched service, the resolved version and its
/// description (both empty for a bare "service detected" result), and the
/// host/port labels of the probed target, threaded through unchanged.
pub struct DetectorResponse {
    pub service: String,
    pub version: String,
    pub description: String,
    pub host: String,
    pub port: u16,
}

/// The mathematical content of a `DetectorResponse`.
pub struct ResponseModel {
    pub service: Seq<char>,
    pub version: Seq<char>,
    pub description: Seq<char>,
    pub host: Seq<char>,
    pub port: u16,
}

impl View for DetectorResponse {
    type V = ResponseModel;

    open spec fn view(&self) -> ResponseModel {
        ResponseModel {
            service: self.service@,
            version: self.version@,
            description: self.description@,
            host: self.host@,
            port: self.port,
        }
    }
}

/// The views of a sequence of emitted results.
pub open spec fn views_of(rs: Seq<DetectorResponse>) -> Seq<ResponseModel> {
    rs.map_values(|r: DetectorResponse| r@)
}

/// The text that follows the first match of the given pattern in the given
/// haystack, or `None` where the pattern does not compile or does not match;
/// the result depends on the pattern and the haystack alone.
pub uninterp spec fn regex_find(pattern: Seq<char>, haystack: Seq<char>) -> Option<Seq<char>>;

/// Relies on `regex::Regex::new` and `regex::Regex::find`: whether a pattern
/// compiles and matches somewhere in a haystack, and the text after the end
/// of the first match, depend on the pattern and the haystack alone. A
/// pattern that does not compile matches nothing; the catalog loader is
/// expected to have rejected such a pattern long before detection runs.
#[verifier::external_body]
fn regex_find_suffix(pattern: &str, haystack: &str) -> (r: Option<String>)
    ensures
        r is Some <==> regex_find(pattern@, haystack@) is Some,
        r matches Some(s) ==> regex_find(pattern@, haystack@) == Some(s@),
{
    match regex::Regex::new(pattern) {
        Ok(re) => re.find(haystack).map(|m| haystack[m.end()..].to_string()),
        Err(_) => None,
    }
}

/// Relies on `std::io::Write::write_fmt` through `writeln`: emits the
/// advisory diagnostic line for a version string that failed to parse.
#[verifier::external_body]
fn log_invalid_semver(host: &str, port: u16, value: &str) {
    let _ = writeln!(
        std::io::stdout(),
        "[{}:{}] - Unknown or invalid semver: {}",
        host,
        port,
        value,
    );
}

/// The bare "service detected" result: service name only, version and
/// description left empty.
pub open spec fn bare_response(name: Seq<char>, host: Seq<char>, port: u16) -> ResponseModel {
    ResponseModel {
        service: name,
        version: Seq::empty(),
        description: Seq::empty(),
        host,
        port,
    }
}

/// Whether a parsed version lies within an inclusive range: both bounds must
/// themselves parse as semantic versions, and the version must be neither
/// below `from` nor above `to`.
pub open spec fn range_matches(r: RangeVersion, v: (u64, u64, u64)) -> bool {
    match (semver_triple(r.from@), semver_triple(r.to@)) {
        (Some(f), Some(t)) => triple_le(f, v) && triple_le(v, t),
        _ => false,
    }
}

/// The results the semver strategy emits: one per configured range that
/// contains the parsed version, in declaration order, each carrying the
/// normalized extracted version string and the range's description.
pub open spec fn semver_results(
    name: Seq<char>,
    ranges: Seq<RangeVersion>,
    version: Seq<char>,
    v: (u64, u64, u64),
    host: Seq<char>,
    port: u16,
) -> Seq<ResponseModel>
    decreases ranges.len(),
{
    if ranges.len() == 0 {
        Seq::empty()
    } else {
        semver_results(name, ranges.drop_last(), version, v, host, port) + if range_matches(
            ranges.last(),
            v,
        ) {
            seq![
                (ResponseModel {
                    service: name,
                    version: version,
                    description: ranges.last().description@,
                    host: host,
                    port: port,
                }),
            ]
        } else {
            Seq::empty()
        }
    }
}

/// The results the table strategy emits: one per entry whose pattern matches
/// somewhere in the body, in declaration order, each pinning that entry's
/// exact version and description.
pub open spec fn table_results(
    name: Seq<char>,
    entries: Seq<RegexVersion>,
    body: Seq<char>,
    host: Seq<char>,
    port: u16,
) -> Seq<ResponseModel>
    decreases entries.len(),
{
    if entries.len() == 0 {
        Seq::empty()
    } else {
        table_results(name, entries.drop_last(), body, host, port) + if regex_find(
            entries.last().regex@,
            body,
        ) is Some {
            seq![
                (ResponseModel {
                    service: name,
                    version: entries.last().version@,
                    description: entries.last().description@,
                    host: host,
                    port: port,
                }),
            ]
        } else {
            Seq::empty()
        }
    }
}

/// The version-resolution results of one matched definition: the semver
/// strategy extracts and normalizes the text after the service-pattern match
/// and checks it against the configured ranges (yielding nothing when it does
/// not parse); the table strategy searches the whole body per entry; a
/// definition without a strategy resolves nothing.
pub open spec fn strategy_results(
    d: Definition,
    suffix: Seq<char>,
    body: Seq<char>,
    host: Seq<char>,
    port: u16,
) -> Seq<ResponseModel> {
    match d.versions {
        None => Seq::empty(),
        Some(vers) => match vers.semver {
            Some(sv) => {
                let norm = normalized_version(suffix);
                match semver_triple(norm) {
                    Some(v) => semver_results(d.name@, sv.ranges@, norm, v, host, port),
                    None => Seq::empty(),
                }
            },
            None => match vers.regex {
                Some(entries) => table_results(d.name@, entries@, body, host, port),
                None => Seq::empty(),
            },
        },
    }
}

/// All results of one definition: nothing when the service pattern does not
/// match the body; otherwise a bare result first when `log` is set, followed
/// by whatever the version strategy resolves.
pub open spec fn definition_results(
    d: Definition,
    host: Seq<char>,
    port: u16,
    body: Seq<char>,
) -> Seq<ResponseModel> {
    match regex_find(d.service.regex@, body) {
        None => Seq::empty(),
        Some(suffix) => (if d.service.log {
            seq![bare_response(d.name@, host, port)]
        } else {
            Seq::empty()
        }) + strategy_results(d, suffix, body, host, port),
    }
}

/// All results of one detection run: the definitions' results concatenated in
/// catalog order.
pub open spec fn detect_spec(
    defs: Seq<Definition>,
    host: Seq<char>,
    port: u16,
    body: Seq<char>,
) -> Seq<ResponseModel>
    decreases defs.len(),
{
    if defs.len() == 0 {
        Seq::empty()
    } else {
        detect_spec(defs.drop_last(), host, port, body) + definition_results(
            defs.last(),
            host,
            port,
            body,
        )
    }
}

proof fn lemma_views_push(rs: Seq<DetectorResponse>, x: DetectorResponse)
    ensures
        views_of(rs.push(x)) == views_of(rs) + seq![x@],
{
    assert(views_of(rs.push(x)) =~= views_of(rs) + seq![x@]);
}

/// Scans the catalog top to bottom against one response body and returns the
/// produced findings, in catalog order; `host` and `port` are opaque labels
/// threaded through unchanged into every result.
pub fn detect(definitions: &Vec<Definition>, host: &str, port: u16, res_body: &str) -> (r: Vec<
    DetectorResponse,
>)
    requires
        catalog_wf(definitions@),
    ensures
        views_of(r@) == detect_spec(definitions@, host@, port, res_body@),
{
    let mut results: Vec<DetectorResponse> = Vec::new();
    let mut i: usize = 0;
    proof {
        assert(views_of(results@) =~= detect_spec(
            definitions@.take(0),
            host@,
            port,
            res_body@,
        ));
    }
    while i < definitions.len()
        invariant
            catalog_wf(definitions@),
            i <= definitions@.len(),
            views_of(results@) == detect_spec(definitions@.take(i as int), host@, port, res_body@),
        decreases definitions@.len() - i,
    {
        let def = &definitions[i];
        let ghost defs_so_far = detect_spec(definitions@.take(i as int), host@, port, res_body@);
        match regex_find_suffix(def.service.regex.as_str(), res_body) {
            None => {},
            Some(suffix) => {
                if def.service.log {
                    let bare = DetectorResponse {
                        service: def.name.clone(),
                        version: String::new(),
                        description: String::new(),
                        host: host.to_owned(),
                        port,
                    };
                    proof {
                        lemma_views_push(results@, bare);
                        assert(seq![bare@] =~= seq![bare_response(def.name@, host@, port)]);
                    }
                    results.push(bare);
                }
                let ghost with_bare = defs_so_far + (if def.service.log {
                    seq![bare_response(def.name@, host@, port)]
                } else {
                    Seq::<ResponseModel>::empty()
                });
                proof {
                    assert(views_of(results@) =~= with_bare);
                }
                match &def.versions {
                    None => {
                        proof {
                            assert(strategy_results(*def, suffix@, res_body@, host@, port)
                                =~= Seq::<ResponseModel>::empty());
                        }
                    },
                    Some(vers) => {
                        match &vers.semver {
                            Some(sv) => {
                                let norm = extract_version(suffix.as_str());
                                match parse_semver(norm.as_str()) {
                                    None => {
                                        log_invalid_semver(host, port, norm.as_str());
                                    },
                                    Some(v) => {
                                        let mut k: usize = 0;
                                        proof {
                                            assert(semver_results(
                                                def.name@,
                                                sv.ranges@.take(0),
                                                norm@,
                                                v,
                                                host@,
                                                port,
                                            ) =~= Seq::<ResponseModel>::empty());
                                        }
                                        while k < sv.ranges.len()
                                            invariant
                                                k <= sv.ranges@.len(),
                                                semver_triple(norm@) == Some(v),
                                                views_of(results@) == with_bare + semver_results(
                                                    def.name@,
                                                    sv.ranges@.take(k as int),
                                                    norm@,
                                                    v,
                                                    host@,
                                                    port,
                                                ),
                                            decreases sv.ranges@.len() - k,
                                        {
                                            let rg = &sv.ranges[k];
                                            let from_v = parse_semver(rg.from.as_str());
                                            let to_v = parse_semver(rg.to.as_str());
                                            let within = match (from_v, to_v) {
                                                (
                                                    Some(f),
                                                    Some(t),
                                                ) => version_le(f, v) && version_le(v, t),
                                                _ => false,
                                            };
                                            assert(within == range_matches(
                                                sv.ranges@[k as int],
                                                v,
                                            ));
                                            proof {
                                                assert(sv.ranges@.take(k + 1).drop_last()
                                                    =~= sv.ranges@.take(k as int));
                                            }
                                            if within {
                                                let found = DetectorResponse {
                                                    service: def.name.clone(),
                                                    version: norm.clone(),
                                                    description: rg.description.clone(),
                                                    host: host.to_owned(),
                                                    port,
                                                };
                                                proof {
                                                    lemma_views_push(results@, found);
                                                }
                                                results.push(found);
                                            }
                                            proof {
                                                assert(views_of(results@) =~= with_bare
                                                    + semver_results(
                                                    def.name@,
                                                    sv.ranges@.take(k + 1),
                                                    norm@,
                                                    v,
                                                    host@,
                                                    port,
                                                ));
                                            }
                                            k = k + 1;
                                        }
                                        proof {
                                            assert(sv.ranges@.take(sv.ranges@.len() as int)
                                                =~= sv.ranges@);
                                        }
                                    },
                                }
                            },
                            None => {
                                match &vers.regex {
                                    Some(entries) => {
                                        let mut k: usize = 0;
                                        proof {
                                            assert(table_results(
                                                def.name@,
                                                entries@.take(0),
                                                res_body@,
                                                host@,
                                                port,
                                            ) =~= Seq::<ResponseModel>::empty());
                                        }
                                        while k < entries.len()
                                            invariant
                                                k <= entries@.len(),
                                                views_of(results@) == with_bare + table_results(
                                                    def.name@,
                                                    entries@.take(k as int),
                                                    res_body@,
                                                    host@,
                                                    port,
                                                ),
                                            decreases entries@.len() - k,
                                        {
                                            let entry = &entries[k];
                                            proof {
                                                assert(entries@.take(k + 1).drop_last()
                                                    =~= entries@.take(k as int));
                                            }
                                            if regex_find_suffix(
                                                entry.regex.as_str(),
                                                res_body,
                                            ).is_some() {
                                                let found = DetectorResponse {
                                                    service: def.name.clone(),
                                                    version: entry.version.clone(),
                                                    description: entry.description.clone(),
                                                    host: host.to_owned(),
                                                    port,
                                                };
                                                proof {
                                                    lemma_views_push(results@, found);
                                                }
                                                results.push(found);
                                            }
                                            proof {
                                                assert(views_of(results@) =~= with_bare
                                                    + table_results(
                                                    def.name@,
                                                    entries@.take(k + 1),
                                                    res_body@,
                                                    host@,
                                                    port,
                                                ));
                                            }
                                            k = k + 1;
                                        }
                                        proof {
                                            assert(entries@.take(entries@.len() as int)
                                                =~= entries@);
                                        }
                                    },
                                    None => {
                                        assert(definition_wf(definitions@[i as int]));
                                        assert(false);
                                    },
                                }
                            },
                        }
                    },
                }
                proof {
                    assert(views_of(results@) =~= with_bare + strategy_results(
                        *def,
                        suffix@,
                        res_body@,
                        host@,
                        port,
                    ));
                }
            },
        }
        proof {
            assert(definitions@.take(i + 1).drop_last() =~= definitions@.take(i as int));
            assert(definitions@.take(i + 1).last() == definitions@[i as int]);
            assert(views_of(results@) =~= detect_spec(
                definitions@.take(i + 1),
                host@,
                port,
                res_body@,
            ));
        }
        i = i + 1;
    }
    proof {
        assert(definitions@.take(definitions@.len() as int) =~= definitions@);
    }
    results
}

/// Law: a definition whose service pattern does not match the body produces
/// no result at all, with either strategy.
pub proof fn lemma_service_pattern_gating(
    d: Definition,
    host: Seq<char>,
    port: u16,
    body: Seq<char>,
)
    requires
        regex_find(d.service.regex@, body) is None,
    ensures
        definition_results(d, host, port, body) == Seq::<ResponseModel>::empty(),
{
}

/// Law: when the service pattern matches and `log` is set, exactly one bare
/// result with empty version and description is emitted, first, whatever the
/// version resolution yields; without `log`, only the strategy's results
/// appear.
pub proof fn lemma_bare_match_logging(d: Definition, host: Seq<char>, port: u16, body: Seq<char>)
    requires
        regex_find(d.service.regex@, body) is Some,
    ensures
        d.service.log ==> definition_results(d, host, port, body) == seq![
            bare_response(d.name@, host, port),
        ] + strategy_results(d, regex_find(d.service.regex@, body)->Some_0, body, host, port),
        !d.service.log ==> definition_results(d, host, port, body) == strategy_results(
            d,
            regex_find(d.service.regex@, body)->Some_0,
            body,
            host,
            port,
        ),
{
    let rest = strategy_results(d, regex_find(d.service.regex@, body)->Some_0, body, host, port);
    if !d.service.log {
        assert(Seq::<ResponseModel>::empty() + rest =~= rest);
    }
}

/// Law: a parsed version exactly equal to a range's `from` or `to` bound
/// satisfies that range; both bounds are inclusive.
pub proof fn lemma_inclusive_range_bounds(r: RangeVersion, f: (u64, u64, u64), t: (u64, u64, u64))
    requires
        semver_triple(r.from@) == Some(f),
        semver_triple(r.to@) == Some(t),
        triple_le(f, t),
    ensures
        range_matches(r, f),
        range_matches(r, t),
{
}

/// Law: two configured ranges that both contain the resolved version yield
/// two results, one per range, in declaration order, each carrying its own
/// range's description.
pub proof fn lemma_multi_range_match(
    name: Seq<char>,
    ranges: Seq<RangeVersion>,
    version: Seq<char>,
    v: (u64, u64, u64),
    host: Seq<char>,
    port: u16,
)
    requires
        ranges.len() == 2,
        range_matches(ranges[0], v),
        range_matches(ranges[1], v),
    ensures
        semver_results(name, ranges, version, v, host, port).len() == 2,
        semver_results(name, ranges, version, v, host, port)[0].description
            == ranges[0].description@,
        semver_results(name, ranges, version, v, host, port)[1].description
            == ranges[1].description@,
{
    let e0 = ResponseModel {
        service: name,
        version: version,
        description: ranges[0].description@,
        host: host,
        port: port,
    };
    let e1 = ResponseModel {
        service: name,
        version: version,
        description: ranges[1].description@,
        host: host,
        port: port,
    };
    assert(ranges.drop_last().last() == ranges[0]);
    assert(ranges.drop_last().drop_last() =~= Seq::<RangeVersion>::empty());
    assert(semver_results(name, ranges.drop_last().drop_last(), version, v, host, port)
        =~= Seq::<ResponseModel>::empty());
    assert(semver_results(name, ranges.drop_last(), version, v, host, port) =~= seq![e0]);
    assert(semver_results(name, ranges, version, v, host, port) =~= seq![e0, e1]);
}

/// Law: a matched semver definition whose extracted string does not parse as
/// a version resolves nothing: only the bare result (when `log` is set)
/// remains for it.
pub proof fn lemma_invalid_version_tolerance(
    d: Definition,
    host: Seq<char>,
    port: u16,
    body: Seq<char>,
)
    requires
        regex_find(d.service.regex@, body) is Some,
        d.versions matches Some(vers) && vers.semver is Some,
        semver_triple(
            normalized_version(regex_find(d.service.regex@, body)->Some_0),
        ) is None,
    ensures
        definition_results(d, host, port, body) == if d.service.log {
            seq![bare_response(d.name@, host, port)]
        } else {
            Seq::<ResponseModel>::empty()
        },
{
    let bare = if d.service.log {
        seq![bare_response(d.name@, host, port)]
    } else {
        Seq::<ResponseModel>::empty()
    };
    assert(bare + Seq::<ResponseModel>::empty() =~= bare);
}

/// Law: a run's results are the concatenation of each definition's results in
/// catalog order, so one definition's outcome — a failed parse included —
/// never keeps a later definition from being evaluated.
pub proof fn lemma_catalog_independence(
    defs: Seq<Definition>,
    d: Definition,
    host: Seq<char>,
    port: u16,
    body: Seq<char>,
)
    ensures
        detect_spec(defs.push(d), host, port, body) == detect_spec(defs, host, port, body)
            + definition_results(d, host, port, body),
{
    assert(defs.push(d).drop_last() =~= defs);
}

/// The detection engine's state: the catalog it scans, the labels and body of
/// the last probed target, and the findings of the last run alone.
pub struct Detector {
    pub definitions: Vec<Definition>,
    pub host: String,
    pub port: u16,
    pub res_body: String,
    pub response: Vec<DetectorResponse>,
}

impl Detector {
    /// A fresh detector over the given catalog, with no findings yet.
    pub fn new(definitions: Vec<Definition>) -> (d: Detector)
        ensures
            d.definitions == definitions,
            d.host@ == Seq::<char>::empty(),
            d.port == 0,
            d.res_body@ == Seq::<char>::empty(),
            d.response@ == Seq::<DetectorResponse>::empty(),
    {
        Detector {
            definitions,
            host: String::new(),
            port: 0,
            res_body: String::new(),
            response: Vec::new(),
        }
    }

    /// Records the probed target and its response body, scans the catalog
    /// against the body, and leaves exactly this run's findings, in catalog
    /// order, as a fresh result list: no finding of an earlier run survives
    /// an invocation.
    pub fn run(&mut self, host: String, port: u16, res_body: String)
        requires
            catalog_wf(old(self).definitions@),
        ensures
            final(self).definitions == old(self).definitions,
            final(self).host@ == host@,
            final(self).port == port,
            final(self).res_body@ == res_body@,
            views_of(final(self).response@) == detect_spec(
                old(self).definitions@,
                host@,
                port,
                res_body@,
            ),
    {
        let found = detect(&self.definitions, host.as_str(), port, res_body.as_str());
        self.host = host;
        self.port = port;
        self.res_body = res_body;
        self.response = found;
    }
}

} // verus!
