//! Resolving a (device name, sensor label) locator to a concrete sensor
//! file path against a snapshot of the hardware sensor registry. The
//! snapshot — each entry's directory path, the text of its device-identity
//! record, and its per-channel records — is enumerated outside and handed
//! in as plain values; everything decided here is verified.

use vstd::prelude::*;
use vstd::string::{StrSliceExecFns, StringExecFns};
use crate::config::{Config, SensorSpec, TempSource};
use crate::sensor::{all_digits, is_digit, trim_spec, trim_str};

verus! {

/// One record inside a registry entry: the record's file name and its text.
pub struct SensorFile {
    pub file_name: String,
    pub content: String,
}

/// One registry entry: the directory it lives in, the text of its
/// device-identity record, and its records.
pub struct HwmonEntry {
    pub path: String,
    pub name_content: String,
    pub files: Vec<SensorFile>,
}

/// The fixed head of a temperature label record's name.
pub open spec fn label_prefix() -> Seq<char> {
    seq!['t', 'e', 'm', 'p']
}

/// The fixed tail of a temperature label record's name.
pub open spec fn label_suffix() -> Seq<char> {
    seq!['_', 'l', 'a', 'b', 'e', 'l']
}

/// The tail that the companion reading record carries instead.
pub open spec fn input_suffix() -> Seq<char> {
    seq!['_', 'i', 'n', 'p', 'u', 't']
}

/// A record name of the form `temp<N>_label` with `<N>` one or more
/// decimal digits.
pub open spec fn is_temp_label_name(name: Seq<char>) -> bool {
    &&& name.len() > 10
    &&& name.subrange(0, 4) == label_prefix()
    &&& name.subrange(name.len() - 6, name.len() as int) == label_suffix()
    &&& all_digits(name.subrange(4, name.len() - 6))
}

/// The numeric index `<N>` of a `temp<N>_label` record name.
pub open spec fn label_index_part(name: Seq<char>) -> Seq<char> {
    name.subrange(4, name.len() - 6)
}

/// The name of the reading record that accompanies a label record:
/// the label suffix replaced by the input suffix, the index kept.
pub open spec fn input_name_for(label_name: Seq<char>) -> Seq<char> {
    label_prefix() + label_index_part(label_name) + input_suffix()
}

/// The full path of the reading record derived from a label record inside
/// the registry entry at directory `dir`.
pub open spec fn sensor_input_path(dir: Seq<char>, label_name: Seq<char>) -> Seq<char> {
    dir + seq!['/'] + input_name_for(label_name)
}

/// Check a record name against the `temp<N>_label` pattern and hand the
/// numeric index back.
pub fn temp_label_index<'a>(name: &'a str) -> (r: Option<&'a str>)
    ensures
        match r {
            Some(idx) => is_temp_label_name(name@) && idx@ == label_index_part(name@),
            None => !is_temp_label_name(name@),
        },
{
    let n = name.unicode_len();
    if n < 11 {
        return None;
    }
    if !(name.get_char(0) == 't' && name.get_char(1) == 'e' && name.get_char(2) == 'm'
        && name.get_char(3) == 'p') {
        proof {
            assert(name@.subrange(0, 4)[0] == name@[0]);
            assert(name@.subrange(0, 4)[1] == name@[1]);
            assert(name@.subrange(0, 4)[2] == name@[2]);
            assert(name@.subrange(0, 4)[3] == name@[3]);
        }
        return None;
    }
    if !(name.get_char(n - 6) == '_' && name.get_char(n - 5) == 'l' && name.get_char(n - 4)
        == 'a' && name.get_char(n - 3) == 'b' && name.get_char(n - 2) == 'e' && name.get_char(
        n - 1,
    ) == 'l') {
        proof {
            let tail = name@.subrange(name@.len() - 6, name@.len() as int);
            assert(tail[0] == name@[n - 6]);
            assert(tail[1] == name@[n - 5]);
            assert(tail[2] == name@[n - 4]);
            assert(tail[3] == name@[n - 3]);
            assert(tail[4] == name@[n - 2]);
            assert(tail[5] == name@[n - 1]);
        }
        return None;
    }
    let mut j: usize = 4;
    while j < n - 6
        invariant
            4 <= j <= n - 6,
            11 <= n == name@.len(),
            forall|k: int| 4 <= k < j ==> is_digit(name@[k]),
        decreases n - 6 - j,
    {
        let c = name.get_char(j);
        if c < '0' || c > '9' {
            proof {
                let mid = name@.subrange(4, name@.len() - 6);
                assert(mid[j - 4] == name@[j as int]);
                assert(!all_digits(mid));
            }
            return None;
        }
        j = j + 1;
    }
    proof {
        assert(name@.subrange(0, 4) =~= label_prefix());
        assert(name@.subrange(name@.len() - 6, name@.len() as int) =~= label_suffix());
        let mid = name@.subrange(4, name@.len() - 6);
        assert(forall|k: int| 0 <= k < mid.len() ==> mid[k] == name@[k + 4]);
        assert(all_digits(mid));
    }
    Some(name.substring_char(4, n - 6))
}

/// Whether a label record answers for the wanted sensor: its name fits the
/// pattern and its trimmed text equals the wanted sensor name.
pub open spec fn file_matches(f: SensorFile, desired: Seq<char>) -> bool {
    is_temp_label_name(f.file_name@) && trim_spec(f.content@) == desired
}

/// The reading-record path the first matching label record of `files`
/// yields, under the entry directory `dir`.
pub open spec fn spec_find_sensor(dir: Seq<char>, files: Seq<SensorFile>, desired: Seq<char>) -> Option<
    Seq<char>,
>
    decreases files.len(),
{
    if files.len() == 0 {
        None
    } else if file_matches(files[0], desired) {
        Some(sensor_input_path(dir, files[0].file_name@))
    } else {
        spec_find_sensor(dir, files.drop_first(), desired)
    }
}

/// Records before `i` never match, so the search may start at `i`.
proof fn lemma_find_sensor_skip(dir: Seq<char>, files: Seq<SensorFile>, desired: Seq<char>, i: int)
    requires
        0 <= i <= files.len(),
        forall|j: int| 0 <= j < i ==> !file_matches(files[j], desired),
    ensures
        spec_find_sensor(dir, files, desired) == spec_find_sensor(dir, files.skip(i), desired),
    decreases i,
{
    if i > 0 {
        lemma_find_sensor_skip(dir, files.drop_first(), desired, i - 1);
        assert(files.drop_first().skip(i - 1) =~= files.skip(i));
    } else {
        assert(files.skip(0) =~= files);
    }
}

/// Scan a registry entry's records for a `temp<N>_label` record whose
/// trimmed text equals the wanted sensor name, and derive the companion
/// `temp<N>_input` path.
pub fn find_sensor(entry: &HwmonEntry, desired: &String) -> (r: Option<String>)
    ensures
        match r {
            Some(p) => Some(p@) == spec_find_sensor(entry.path@, entry.files@, desired@),
            None => spec_find_sensor(entry.path@, entry.files@, desired@) is None,
        },
{
    let n = entry.files.len();
    let mut i: usize = 0;
    while i < n
        invariant
            0 <= i <= n,
            n == entry.files@.len(),
            forall|j: int| 0 <= j < i ==> !file_matches(entry.files@[j], desired@),
        decreases n - i,
    {
        let f = &entry.files[i];
        if let Some(idx) = temp_label_index(f.file_name.as_str()) {
            let trimmed = trim_str(f.content.as_str());
            if trimmed.to_owned() == *desired {
                let mut p = entry.path.clone();
                p.append("/temp");
                p.append(idx);
                p.append("_input");
                proof {
                    reveal_strlit("/temp");
                    reveal_strlit("_input");
                    lemma_find_sensor_skip(entry.path@, entry.files@, desired@, i as int);
                    assert(entry.files@.skip(i as int)[0] == entry.files@[i as int]);
                    assert(p@ =~= sensor_input_path(entry.path@, f.file_name@));
                }
                return Some(p);
            }
        }
        proof {
            assert(!file_matches(entry.files@[i as int], desired@));
        }
        i = i + 1;
    }
    proof {
        lemma_find_sensor_skip(entry.path@, entry.files@, desired@, n as int);
        assert(entry.files@.skip(n as int) =~= Seq::<SensorFile>::empty());
    }
    None
}

/// Whether a registry entry is the wanted device: the trimmed text of its
/// device-identity record equals the wanted device name.
pub fn test_if_device(entry: &HwmonEntry, desired: &String) -> (r: bool)
    ensures
        r == (trim_spec(entry.name_content@) == desired@),
{
    let trimmed = trim_str(entry.name_content.as_str());
    trimmed.to_owned() == *desired
}

/// The path the registry resolves a (device, sensor) locator to: the wanted
/// sensor looked up inside the first entry whose trimmed device identity
/// matches, if any.
pub open spec fn spec_resolve(entries: Seq<HwmonEntry>, dev: Seq<char>, label: Seq<char>) -> Option<
    Seq<char>,
>
    decreases entries.len(),
{
    if entries.len() == 0 {
        None
    } else if trim_spec(entries[0].name_content@) == dev {
        spec_find_sensor(entries[0].path@, entries[0].files@, label)
    } else {
        spec_resolve(entries.drop_first(), dev, label)
    }
}

/// Entries before `i` are not the wanted device, so the scan may start at `i`.
proof fn lemma_resolve_skip(entries: Seq<HwmonEntry>, dev: Seq<char>, label: Seq<char>, i: int)
    requires
        0 <= i <= entries.len(),
        forall|j: int| 0 <= j < i ==> trim_spec(entries[j].name_content@) != dev,
    ensures
        spec_resolve(entries, dev, label) == spec_resolve(entries.skip(i), dev, label),
    decreases i,
{
    if i > 0 {
        lemma_resolve_skip(entries.drop_first(), dev, label, i - 1);
        assert(entries.drop_first().skip(i - 1) =~= entries.skip(i));
    } else {
        assert(entries.skip(0) =~= entries);
    }
}

/// Scan the registry snapshot for the wanted device and, within the first
/// entry that is it, for the wanted sensor's reading-record path.
pub fn get_path_to_temperature_file(
    registry: &Vec<HwmonEntry>,
    dev_name: &String,
    label: &String,
) -> (r: Option<String>)
    ensures
        match r {
            Some(p) => Some(p@) == spec_resolve(registry@, dev_name@, label@),
            None => spec_resolve(registry@, dev_name@, label@) is None,
        },
{
    let n = registry.len();
    let mut i: usize = 0;
    while i < n
        invariant
            0 <= i <= n,
            n == registry@.len(),
            forall|j: int| 0 <= j < i ==> trim_spec(registry@[j].name_content@) != dev_name@,
        decreases n - i,
    {
        let entry = &registry[i];
        if test_if_device(entry, dev_name) {
            proof {
                lemma_resolve_skip(registry@, dev_name@, label@, i as int);
                assert(registry@.skip(i as int)[0] == registry@[i as int]);
            }
            return find_sensor(entry, label);
        }
        i = i + 1;
    }
    proof {
        lemma_resolve_skip(registry@, dev_name@, label@, n as int);
        assert(registry@.skip(n as int) =~= Seq::<HwmonEntry>::empty());
    }
    None
}

/// Why a temperature source could not be made ready: it named neither a
/// path nor a sensor locator, or its locator matched nothing in the
/// registry. Both are fatal configuration errors.
pub enum ResolveError {
    MissingSpec { source_name: String },
    SensorNotFound { source_name: String },
}

impl ResolveError {
    /// The name of the source that could not be made ready.
    pub fn source_name(&self) -> (r: &String)
        ensures
            match self {
                ResolveError::MissingSpec { source_name } => r == source_name,
                ResolveError::SensorNotFound { source_name } => r == source_name,
            },
    {
        match self {
            ResolveError::MissingSpec { source_name } => source_name,
            ResolveError::SensorNotFound { source_name } => source_name,
        }
    }
}

/// The path a source must end up with: its explicit path if it has one
/// (the path wins over a locator), else what the registry resolves its
/// locator to, else nothing — a fatal configuration error.
pub open spec fn spec_source_outcome(src: TempSource, entries: Seq<HwmonEntry>) -> Option<
    Seq<char>,
> {
    match src.path {
        Some(p) => Some(p@),
        None => match src.sensor {
            Some(s) => spec_resolve(entries, s.device_name@, s.sensor_name@),
            None => None,
        },
    }
}

/// How a prepared source relates to the configured one: name and locator
/// kept, path filled in exactly as the registry dictates.
pub open spec fn source_prepared(src: TempSource, entries: Seq<HwmonEntry>, dst: TempSource) -> bool {
    &&& dst.name == src.name
    &&& dst.sensor == src.sensor
    &&& match dst.path {
        Some(q) => Some(q@) == spec_source_outcome(src, entries),
        None => false,
    }
}

/// The error owed for a source that cannot be made ready.
pub open spec fn spec_source_error(src: TempSource, entries: Seq<HwmonEntry>, e: ResolveError) -> bool {
    match src.path {
        Some(_) => false,
        None => match src.sensor {
            Some(s) => {
                &&& spec_resolve(entries, s.device_name@, s.sensor_name@) is None
                &&& e matches ResolveError::SensorNotFound { source_name } && source_name
                    == src.name
            },
            None => e matches ResolveError::MissingSpec { source_name } && source_name == src.name,
        },
    }
}

/// Copy an optional sensor locator.
fn clone_sensor_opt(s: &Option<SensorSpec>) -> (r: Option<SensorSpec>)
    ensures
        r == *s,
{
    match s {
        Some(x) => Some(
            SensorSpec {
                device_name: x.device_name.clone(),
                sensor_name: x.sensor_name.clone(),
            },
        ),
        None => None,
    }
}

/// Make every temperature source ready for the loop: keep an explicit path
/// where one is given (it wins over a locator), resolve a locator against
/// the registry snapshot otherwise, and fail on the first source that has
/// neither a path nor a resolvable locator, leaving the configuration
/// untouched in that case. Runs once, before the loop starts.
pub fn prep_config(cfg: &mut Config, registry: &Vec<HwmonEntry>) -> (r: Result<(), ResolveError>)
    ensures
        final(cfg).interval_ms == old(cfg).interval_ms,
        final(cfg).cpu_fan == old(cfg).cpu_fan,
        final(cfg).frnt_fan1 == old(cfg).frnt_fan1,
        final(cfg).frnt_fan2 == old(cfg).frnt_fan2,
        final(cfg).frnt_fan3 == old(cfg).frnt_fan3,
        final(cfg).frnt_fan4 == old(cfg).frnt_fan4,
        final(cfg).rear_fan1 == old(cfg).rear_fan1,
        final(cfg).rear_fan2 == old(cfg).rear_fan2,
        r is Ok <==> (forall|i: int|
            0 <= i < old(cfg).temp_sources@.len() ==> spec_source_outcome(
                #[trigger] old(cfg).temp_sources@[i],
                registry@,
            ) is Some),
        match r {
            Ok(_) => {
                &&& final(cfg).temp_sources@.len() == old(cfg).temp_sources@.len()
                &&& forall|i: int|
                    0 <= i < old(cfg).temp_sources@.len() ==> source_prepared(
                        old(cfg).temp_sources@[i],
                        registry@,
                        #[trigger] final(cfg).temp_sources@[i],
                    )
            },
            Err(e) => {
                &&& final(cfg).temp_sources == old(cfg).temp_sources
                &&& exists|i: int|
                    {
                        &&& 0 <= i < old(cfg).temp_sources@.len()
                        &&& spec_source_error(#[trigger] old(cfg).temp_sources@[i], registry@, e)
                        &&& forall|j: int|
                            0 <= j < i ==> spec_source_outcome(
                                #[trigger] old(cfg).temp_sources@[j],
                                registry@,
                            ) is Some
                    }
            },
        },
{
    let n = cfg.temp_sources.len();
    let mut out: Vec<TempSource> = Vec::new();
    let mut i: usize = 0;
    while i < n
        invariant
            0 <= i <= n,
            *cfg == *old(cfg),
            n == cfg.temp_sources@.len(),
            out@.len() == i as int,
            forall|j: int|
                0 <= j < i ==> source_prepared(
                    cfg.temp_sources@[j],
                    registry@,
                    #[trigger] out@[j],
                ),
        decreases n - i,
    {
        let src = &cfg.temp_sources[i];
        let name = src.name.clone();
        match (&src.path, &src.sensor) {
            (Some(p), _) => {
                out.push(
                    TempSource { name, path: Some(p.clone()), sensor: clone_sensor_opt(&src.sensor) },
                );
            },
            (None, Some(s)) => {
                match get_path_to_temperature_file(registry, &s.device_name, &s.sensor_name) {
                    Some(path) => {
                        out.push(
                            TempSource {
                                name,
                                path: Some(path),
                                sensor: Some(
                                    SensorSpec {
                                        device_name: s.device_name.clone(),
                                        sensor_name: s.sensor_name.clone(),
                                    },
                                ),
                            },
                        );
                    },
                    None => {
                        proof {
                            assert forall|j: int| 0 <= j < i implies spec_source_outcome(
                                #[trigger] cfg.temp_sources@[j],
                                registry@,
                            ) is Some by {
                                assert(source_prepared(cfg.temp_sources@[j], registry@, out@[j]));
                            }
                        }
                        return Err(ResolveError::SensorNotFound { source_name: name });
                    },
                }
            },
            (None, None) => {
                proof {
                    assert forall|j: int| 0 <= j < i implies spec_source_outcome(
                        #[trigger] cfg.temp_sources@[j],
                        registry@,
                    ) is Some by {
                        assert(source_prepared(cfg.temp_sources@[j], registry@, out@[j]));
                    }
                }
                return Err(ResolveError::MissingSpec { source_name: name });
            },
        }
        proof {
            assert(source_prepared(cfg.temp_sources@[i as int], registry@, out@[i as int]));
        }
        i = i + 1;
    }
    cfg.temp_sources = out;
    proof {
        assert forall|k: int| 0 <= k < old(cfg).temp_sources@.len() implies spec_source_outcome(
            #[trigger] old(cfg).temp_sources@[k],
            registry@,
        ) is Some by {
            assert(source_prepared(
                old(cfg).temp_sources@[k],
                registry@,
                final(cfg).temp_sources@[k],
            ));
        }
    }
    Ok(())
}

} // verus!
