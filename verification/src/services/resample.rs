//! What resampling decides for each scanned file, how `ffmpeg` is asked to do it,
//! and how the outcomes are reported.
use vstd::prelude::*;
use crate::domain::audiofile::{AudioFileDescriptor, AudioFileType, resample_target_rate, type_text};
use crate::utils::numbers::{decimal, u32_text};
use crate::utils::paths::{file_name, joined_path, path_file_name, path_join};

verus! {

/// Where a resampled file goes.
#[derive(Clone, Copy, Debug, PartialEq, Eq, Structural)]
pub enum ResampleStrategy {
    /// It replaces the file it was made from.
    InPlace,
    /// It is written to the cache directory.
    CopyToCache,
}

impl Default for ResampleStrategy {
    fn default() -> (res: Self)
        ensures
            res == ResampleStrategy::CopyToCache,
    {
        ResampleStrategy::CopyToCache
    }
}

/// How the library is resampled. (How many threads do the work is the caller's
/// business.)
#[derive(Clone, Debug, PartialEq)]
pub struct ResampleConfig {
    pub max_sample_rate: u32,
    pub strategy: ResampleStrategy,
    pub cache_dir: String,
    pub enable_backups: bool,
    pub supported_types: Vec<AudioFileType>,
}

impl Default for ResampleConfig {
    fn default() -> (res: Self)
        ensures
            res.max_sample_rate == 88200,
            res.strategy == ResampleStrategy::CopyToCache,
            res.cache_dir@ == "./data/media/music/.resampled"@,
            res.enable_backups,
            res.supported_types@.len() == 0,
    {
        ResampleConfig {
            max_sample_rate: 88200,
            strategy: ResampleStrategy::default(),
            cache_dir: "./data/media/music/.resampled".to_string(),
            enable_backups: true,
            supported_types: Vec::new(),
        }
    }
}

/// Why a file was left as it is.
#[derive(Clone, Copy, Debug, PartialEq, Eq, Structural)]
pub enum SkipReason {
    FailedToRetrieveSampleRate,
    SampleRateLowerThanMax,
    InvalidPath,
}

/// Why resampling a file failed.
#[derive(Debug)]
pub enum ResampleError {
    IOError(String),
    ThreadPoolBuildError(String),
    FfmpegResamplerError(String),
}

/// What became of one file.
#[derive(Debug)]
pub enum DescriptorOutcome {
    Processed(String),
    Skipped(String, SkipReason),
    Errored(String, ResampleError),
}

/// What a file needs: nothing (and why), or resampling from `input` into `output`.
#[derive(Debug, Clone)]
pub enum DescriptorPlan {
    Skip(String, SkipReason),
    Resample { input: String, output: String, file_type: AudioFileType, strategy: ResampleStrategy },
}

/// The processed, skipped and failed files of a resampling run.
#[derive(Debug)]
pub struct ResampleReport {
    pub processed_files: Vec<String>,
    pub skipped_files: Vec<(String, SkipReason)>,
    pub errors: Vec<(String, ResampleError)>,
}

/// Whether `plan` is what resampling under `config` decides for `d`: files without a
/// known sample rate, or with one no higher than the maximum, or without a file name
/// are skipped; the others are resampled into the cache directory under their name.
pub open spec fn plan_of(config: ResampleConfig, d: AudioFileDescriptor, plan: DescriptorPlan) -> bool {
    match d.metadata.sample_rate {
        None => plan matches DescriptorPlan::Skip(p, r) && p@ == d.path@ && r == SkipReason::FailedToRetrieveSampleRate,
        Some(sr) => if sr <= config.max_sample_rate {
            plan matches DescriptorPlan::Skip(p, r) && p@ == d.path@ && r == SkipReason::SampleRateLowerThanMax
        } else {
            match file_name(d.path@) {
                None => plan matches DescriptorPlan::Skip(p, r) && p@ == d.path@ && r == SkipReason::InvalidPath,
                Some(name) => plan matches DescriptorPlan::Resample { input, output, file_type, strategy }
                    && input@ == d.path@ && output@ == joined_path(config.cache_dir@, name)
                    && file_type == d.file_type && strategy == config.strategy,
            }
        },
    }
}

/// The configured maximum alone is the threshold: a file whose sample rate is known
/// and no higher than it is skipped for that reason, whatever its kind; one above it
/// is resampled, keeping its kind and the configured strategy, where its path names a
/// file.
pub proof fn lemma_plan_threshold(config: ResampleConfig, d: AudioFileDescriptor, plan: DescriptorPlan)
    requires
        plan_of(config, d, plan),
        d.metadata.sample_rate is Some,
    ensures
        d.metadata.sample_rate.unwrap() <= config.max_sample_rate ==> (plan matches DescriptorPlan::Skip(p, r)
            && p@ == d.path@ && r == SkipReason::SampleRateLowerThanMax),
        d.metadata.sample_rate.unwrap() > config.max_sample_rate && file_name(d.path@) is Some ==> (
        plan matches DescriptorPlan::Resample { input, file_type, strategy, .. }
            && input@ == d.path@ && file_type == d.file_type && strategy == config.strategy),
{
}

/// The kind of a file has no say in whether it is skipped: two files at one path with
/// one sample rate get the same decision, and a skip for the same reason.
pub proof fn lemma_plan_ignores_kind(
    config: ResampleConfig,
    d1: AudioFileDescriptor,
    d2: AudioFileDescriptor,
    p1: DescriptorPlan,
    p2: DescriptorPlan,
)
    requires
        plan_of(config, d1, p1),
        plan_of(config, d2, p2),
        d1.path@ == d2.path@,
        d1.metadata.sample_rate == d2.metadata.sample_rate,
    ensures
        (p1 is Skip) == (p2 is Skip),
        p1 matches DescriptorPlan::Skip(_, r1) ==> (p2 matches DescriptorPlan::Skip(_, r2) && r1 == r2),
{
}

/// The arguments with which `ffmpeg` resamples `input` into `output`: the kind's
/// target rate and the kind's codec.
pub open spec fn ffmpeg_argument_list(input: Seq<char>, output: Seq<char>, file_type: AudioFileType) -> Seq<Seq<char>> {
    seq![
        "-i"@,
        input,
        "-ar"@,
        decimal(resample_target_rate(file_type) as nat),
        "-c:a"@,
        type_text(file_type),
        output,
    ]
}

/// The path of an outcome's file.
pub open spec fn outcome_path(o: DescriptorOutcome) -> Seq<char> {
    match o {
        DescriptorOutcome::Processed(p) => p@,
        DescriptorOutcome::Skipped(p, _) => p@,
        DescriptorOutcome::Errored(p, _) => p@,
    }
}

pub open spec fn processed_path(o: DescriptorOutcome) -> Option<Seq<char>> {
    match o {
        DescriptorOutcome::Processed(p) => Some(p@),
        _ => None,
    }
}

pub open spec fn skipped_entry(o: DescriptorOutcome) -> Option<(Seq<char>, SkipReason)> {
    match o {
        DescriptorOutcome::Skipped(p, r) => Some((p@, r)),
        _ => None,
    }
}

pub open spec fn errored_path(o: DescriptorOutcome) -> Option<Seq<char>> {
    match o {
        DescriptorOutcome::Errored(p, _) => Some(p@),
        _ => None,
    }
}

/// Whether `report` sorts `outcomes`, in their order, into processed, skipped and
/// failed files.
pub open spec fn report_of(outcomes: Seq<DescriptorOutcome>, report: ResampleReport) -> bool {
    &&& report.processed_files@.map_values(|p: String| p@) == outcomes.filter_map(|o: DescriptorOutcome| processed_path(o))
    &&& report.skipped_files@.map_values(|e: (String, SkipReason)| (e.0@, e.1)) == outcomes.filter_map(|o: DescriptorOutcome| skipped_entry(o))
    &&& report.errors@.map_values(|e: (String, ResampleError)| e.0@) == outcomes.filter_map(|o: DescriptorOutcome| errored_path(o))
}

proof fn lemma_report_push(s: Seq<DescriptorOutcome>, x: DescriptorOutcome)
    ensures
        s.push(x).filter_map(|o: DescriptorOutcome| processed_path(o)) == match processed_path(x) {
            Some(v) => s.filter_map(|o: DescriptorOutcome| processed_path(o)).push(v),
            None => s.filter_map(|o: DescriptorOutcome| processed_path(o)),
        },
        s.push(x).filter_map(|o: DescriptorOutcome| skipped_entry(o)) == match skipped_entry(x) {
            Some(v) => s.filter_map(|o: DescriptorOutcome| skipped_entry(o)).push(v),
            None => s.filter_map(|o: DescriptorOutcome| skipped_entry(o)),
        },
        s.push(x).filter_map(|o: DescriptorOutcome| errored_path(o)) == match errored_path(x) {
            Some(v) => s.filter_map(|o: DescriptorOutcome| errored_path(o)).push(v),
            None => s.filter_map(|o: DescriptorOutcome| errored_path(o)),
        },
{
    assert(s.push(x).drop_last() =~= s);
    assert(s.push(x).last() == x);
    match processed_path(x) {
        Some(v) => assert(s.filter_map(|o: DescriptorOutcome| processed_path(o)) + seq![v] =~= s.filter_map(|o: DescriptorOutcome| processed_path(o)).push(v)),
        None => {},
    }
    match skipped_entry(x) {
        Some(v) => assert(s.filter_map(|o: DescriptorOutcome| skipped_entry(o)) + seq![v] =~= s.filter_map(|o: DescriptorOutcome| skipped_entry(o)).push(v)),
        None => {},
    }
    match errored_path(x) {
        Some(v) => assert(s.filter_map(|o: DescriptorOutcome| errored_path(o)) + seq![v] =~= s.filter_map(|o: DescriptorOutcome| errored_path(o)).push(v)),
        None => {},
    }
}

/// A report accounts for every file once: the processed, skipped and failed files
/// together are as many as the outcomes it was made from.
pub proof fn lemma_every_file_reported_once(outcomes: Seq<DescriptorOutcome>, report: ResampleReport)
    requires
        report_of(outcomes, report),
    ensures
        report.processed_files@.len() + report.skipped_files@.len() + report.errors@.len() == outcomes.len(),
    decreases outcomes.len(),
{
    lemma_outcome_counts(outcomes);
    assert(report.processed_files@.map_values(|p: String| p@).len() == report.processed_files@.len());
    assert(report.skipped_files@.map_values(|e: (String, SkipReason)| (e.0@, e.1)).len() == report.skipped_files@.len());
    assert(report.errors@.map_values(|e: (String, ResampleError)| e.0@).len() == report.errors@.len());
}

proof fn lemma_outcome_counts(outcomes: Seq<DescriptorOutcome>)
    ensures
        outcomes.filter_map(|o: DescriptorOutcome| processed_path(o)).len()
            + outcomes.filter_map(|o: DescriptorOutcome| skipped_entry(o)).len()
            + outcomes.filter_map(|o: DescriptorOutcome| errored_path(o)).len() == outcomes.len(),
    decreases outcomes.len(),
{
    if outcomes.len() > 0 {
        let rest = outcomes.drop_last();
        lemma_outcome_counts(rest);
        assert(outcomes == rest.push(outcomes.last()));
        lemma_report_push(rest, outcomes.last());
    }
}

impl ResampleReport {
    pub fn new() -> (res: Self)
        ensures
            res.processed_files@.len() == 0,
            res.skipped_files@.len() == 0,
            res.errors@.len() == 0,
    {
        ResampleReport { processed_files: Vec::new(), skipped_files: Vec::new(), errors: Vec::new() }
    }

    /// Sorts the outcomes, in their order, into the report.
    pub fn from_outcomes(outcomes: Vec<DescriptorOutcome>) -> (res: Self)
        ensures
            report_of(outcomes@, res),
    {
        let ghost whole = outcomes@;
        let mut rest = outcomes;
        let mut rev: Vec<DescriptorOutcome> = Vec::new();
        assert(rest@ + rev@.reverse() =~= whole);
        while rest.len() > 0
            invariant
                rest@ + rev@.reverse() == whole,
            decreases rest.len(),
        {
            let ghost rest0 = rest@;
            let ghost rev0 = rev@;
            let x = rest.pop().unwrap();
            rev.push(x);
            assert(rest0 == rest@.push(x));
            assert(rev@.reverse() =~= seq![x] + rev0.reverse());
            assert(rest@ + rev@.reverse() =~= rest0 + rev0.reverse());
        }
        assert(rev@.reverse() =~= whole);
        let mut report = ResampleReport::new();
        let ghost mut c: int = 0;
        assert(whole.take(0) =~= Seq::<DescriptorOutcome>::empty());
        assert(report.processed_files@.map_values(|p: String| p@) =~= Seq::<Seq<char>>::empty());
        assert(report.skipped_files@.map_values(|e: (String, SkipReason)| (e.0@, e.1)) =~= Seq::<(Seq<char>, SkipReason)>::empty());
        assert(report.errors@.map_values(|e: (String, ResampleError)| e.0@) =~= Seq::<Seq<char>>::empty());
        while rev.len() > 0
            invariant
                0 <= c <= whole.len(),
                whole == whole.take(c) + rev@.reverse(),
                report_of(whole.take(c), report),
            decreases rev.len(),
        {
            let ghost rev0 = rev@;
            let x = rev.pop().unwrap();
            assert(rev0 == rev@.push(x));
            assert(rev0.reverse() =~= seq![x] + rev@.reverse());
            assert(whole[c] == x) by {
                assert((whole.take(c) + rev0.reverse())[c] == rev0.reverse()[0]);
            }
            assert(whole.take(c + 1) =~= whole.take(c).push(x));
            proof {
                lemma_report_push(whole.take(c), x);
            }
            let ghost p0 = report.processed_files@;
            let ghost s0 = report.skipped_files@;
            let ghost e0 = report.errors@;
            match x {
                DescriptorOutcome::Processed(path) => {
                    report.processed_files.push(path);
                    assert(report.processed_files@.map_values(|p: String| p@) =~= p0.map_values(|p: String| p@).push(path@));
                },
                DescriptorOutcome::Skipped(path, why) => {
                    report.skipped_files.push((path, why));
                    assert(report.skipped_files@.map_values(|e: (String, SkipReason)| (e.0@, e.1)) =~= s0.map_values(|e: (String, SkipReason)| (e.0@, e.1)).push((path@, why)));
                },
                DescriptorOutcome::Errored(path, err) => {
                    report.errors.push((path, err));
                    assert(report.errors@.map_values(|e: (String, ResampleError)| e.0@) =~= e0.map_values(|e: (String, ResampleError)| e.0@).push(path@));
                },
            }
            proof {
                c = c + 1;
            }
            assert(whole =~= whole.take(c) + rev@.reverse());
        }
        assert(whole.take(c) =~= whole);
        report
    }
}

impl ResampleConfig {
    /// What resampling decides for one scanned file.
    pub fn plan_descriptor(&self, descriptor: &AudioFileDescriptor) -> (res: DescriptorPlan)
        ensures
            plan_of(*self, *descriptor, res),
    {
        let path = descriptor.path.clone();
        let sample_rate = match descriptor.metadata.sample_rate {
            Some(sr) => sr,
            None => return DescriptorPlan::Skip(path, SkipReason::FailedToRetrieveSampleRate),
        };
        if sample_rate <= self.max_sample_rate {
            return DescriptorPlan::Skip(path, SkipReason::SampleRateLowerThanMax);
        }
        let name = match path_file_name(descriptor.path.as_str()) {
            Some(n) => n,
            None => return DescriptorPlan::Skip(path, SkipReason::InvalidPath),
        };
        let output = path_join(self.cache_dir.as_str(), name.as_str());
        DescriptorPlan::Resample { input: path, output, file_type: descriptor.file_type, strategy: self.strategy }
    }
}

/// Whether the resampled file is to be moved over the file it was made from: only
/// after a successful resampling in place.
pub fn should_move(strategy: ResampleStrategy, resampled: &Result<(), ResampleError>) -> (res: bool)
    ensures
        res == (strategy == ResampleStrategy::InPlace && resampled is Ok),
{
    match strategy {
        ResampleStrategy::InPlace => resampled.is_ok(),
        ResampleStrategy::CopyToCache => false,
    }
}

/// What became of a file that was to be resampled, given what resampling gave back
/// and, for a file resampled in place, what moving the result over the source file gave
/// back.
pub fn finish_descriptor(
    input: String,
    strategy: ResampleStrategy,
    resampled: Result<(), ResampleError>,
    moved: Option<Result<(), String>>,
) -> (res: DescriptorOutcome)
    ensures
        match resampled {
            Err(e) => res matches DescriptorOutcome::Errored(p, e2) && p@ == input@ && e2 == e,
            Ok(()) => match strategy {
                ResampleStrategy::CopyToCache => res matches DescriptorOutcome::Processed(p) && p@ == input@,
                ResampleStrategy::InPlace => match moved {
                    Some(Err(m)) => res matches DescriptorOutcome::Errored(p, ResampleError::IOError(e)) && p@ == input@ && e@ == m@,
                    _ => res matches DescriptorOutcome::Processed(p) && p@ == input@,
                },
            },
        },
{
    match resampled {
        Err(e) => DescriptorOutcome::Errored(input, e),
        Ok(()) => match strategy {
            ResampleStrategy::CopyToCache => DescriptorOutcome::Processed(input),
            ResampleStrategy::InPlace => match moved {
                Some(Err(m)) => DescriptorOutcome::Errored(input, ResampleError::IOError(m)),
                _ => DescriptorOutcome::Processed(input),
            },
        },
    }
}

/// The arguments with which `ffmpeg` resamples `input` into `output`.
pub fn ffmpeg_args(input: &str, output: &str, file_type: AudioFileType) -> (res: Vec<String>)
    ensures
        res@.map_values(|s: String| s@) == ffmpeg_argument_list(input@, output@, file_type),
{
    let mut args: Vec<String> = Vec::new();
    args.push("-i".to_string());
    args.push(input.to_string());
    args.push("-ar".to_string());
    args.push(u32_text(file_type.get_resample_target_rate()));
    args.push("-c:a".to_string());
    args.push(file_type.as_str().to_string());
    args.push(output.to_string());
    assert(args@.map_values(|s: String| s@) =~= ffmpeg_argument_list(input@, output@, file_type));
    args
}

} // verus!
