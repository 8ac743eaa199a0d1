//! Jobs of a batch: one unit of work per source URL, with the derived
//! destination file name, plus the sanitizing of the collection name that the
//! destination directory is named after.

use vstd::prelude::*;
use vstd::string::StrSliceExecFns;
use vstd::string::StringExecFns;
use crate::digits::lemma_value_of_padded4;
use crate::digits::push_padded4;
use crate::digits::spec_padded4;
use crate::digits::spec_value;

verus! {

/// One unit of work: fetch `source_url` to the file `file_name` inside the
/// batch's destination directory. The name encodes the job's 1-based position
/// in the submitted URL list, so output order is fixed before dispatch.
pub struct DownloadJob {
    pub sequence_index: usize,
    pub source_url: String,
    pub file_name: String,
}

/// Destination file name of the job at 0-based `index`: its 1-based position
/// zero-padded to at least four digits, with the fixed image extension.
pub open spec fn spec_file_name(index: nat) -> Seq<char> {
    spec_padded4(index + 1) + ".jpg"@
}

/// A job's name and index agree.
pub open spec fn job_wf(job: DownloadJob) -> bool {
    job.file_name@ == spec_file_name(job.sequence_index as nat)
}

/// The position encoded in a destination file name is recoverable: decoding
/// the digits before the extension gives the 1-based position back.
pub proof fn lemma_file_name_encodes_index(index: nat)
    ensures
        spec_value(spec_padded4(index + 1)) == index + 1,
{
    lemma_value_of_padded4(index + 1);
}

/// Destination file names are monotonic in submission order: an earlier job's
/// name encodes a strictly smaller position, and the names themselves are
/// distinct, whatever order the jobs complete in.
pub proof fn lemma_file_names_monotonic(i: nat, j: nat)
    requires
        i < j,
    ensures
        spec_value(spec_padded4(i + 1)) < spec_value(spec_padded4(j + 1)),
        spec_file_name(i) != spec_file_name(j),
{
    lemma_file_name_encodes_index(i);
    lemma_file_name_encodes_index(j);
    if spec_file_name(i) == spec_file_name(j) {
        let si = spec_padded4(i + 1);
        let sj = spec_padded4(j + 1);
        let ext = ".jpg"@;
        assert(spec_file_name(i) == si + ext);
        assert(spec_file_name(j) == sj + ext);
        assert((si + ext).len() == si.len() + ext.len());
        assert(si.len() == sj.len());
        assert(si =~= (si + ext).subrange(0, si.len() as int));
        assert(sj =~= (sj + ext).subrange(0, sj.len() as int));
        assert(si == sj);
        assert(false);
    }
}

/// Below the padding width the names have one fixed length — four digits and
/// the extension — so their numeric order is their lexicographic order too.
pub proof fn lemma_file_name_len(index: nat)
    ensures
        spec_file_name(index).len() >= 8,
        index + 1 < 10000 ==> spec_file_name(index).len() == 8,
{
    crate::digits::lemma_padded4_len(index + 1);
    reveal_strlit(".jpg");
}

/// Render the destination file name for the job at `index`.
pub fn file_name_for(index: usize) -> (r: String)
    requires
        index < usize::MAX,
    ensures
        r@ == spec_file_name(index as nat),
{
    let mut s = String::new();
    push_padded4(&mut s, index + 1);
    s.append(".jpg");
    proof {
        assert(s@ =~= spec_file_name(index as nat));
    }
    s
}

/// A character that may not stand in a directory name.
pub open spec fn path_hostile(c: char) -> bool {
    c == '/' || c == '\\'
}

/// The character a sanitized name carries in place of `c`.
pub open spec fn sanitized_char(c: char) -> char {
    if path_hostile(c) {
        '_'
    } else {
        c
    }
}

/// A name that cannot name a directory of its own: empty, or made of dots
/// alone, which would point at the current or an enclosing directory.
pub open spec fn all_dots(s: Seq<char>) -> bool {
    forall|k: int| 0 <= k < s.len() ==> s[k] == '.'
}

/// Directory name derived from a collection name: path separators are
/// replaced, and a name that is empty or consists of dots alone becomes a
/// single placeholder, so the result is always a usable single path
/// component inside the download root.
pub open spec fn spec_sanitize(s: Seq<char>) -> Seq<char> {
    if all_dots(s) {
        seq!['_']
    } else {
        Seq::new(s.len(), |i: int| sanitized_char(s[i]))
    }
}

/// Sanitize a collection name for use as the destination directory's name.
pub fn sanitize_collection_name(name: &str) -> (r: String)
    ensures
        r@ == spec_sanitize(name@),
{
    let len = name.unicode_len();
    let mut r = String::new();
    let mut only_dots = true;
    let mut i: usize = 0;
    while i < len
        invariant
            len == name@.len(),
            i <= len,
            only_dots == (forall|k: int| 0 <= k < i ==> name@[k] == '.'),
        decreases len - i,
    {
        if name.get_char(i) != '.' {
            only_dots = false;
        }
        i = i + 1;
    }
    if only_dots {
        r.append("_");
        proof {
            reveal_strlit("_");
            assert(r@ =~= spec_sanitize(name@));
        }
        return r;
    }
    let mut i: usize = 0;
    while i < len
        invariant
            len == name@.len(),
            i <= len,
            r@.len() == i,
            forall|k: int| 0 <= k < i ==> r@[k] == sanitized_char(name@[k]),
        decreases len - i,
    {
        let c = name.get_char(i);
        if c == '/' || c == '\\' {
            r.append("_");
            proof {
                reveal_strlit("_");
            }
        } else {
            let piece = name.substring_char(i, i + 1);
            r.append(piece);
        }
        i = i + 1;
    }
    proof {
        assert(r@ =~= spec_sanitize(name@));
    }
    r
}

/// Build the jobs of a batch, one per submitted URL, in submission order.
/// Every job carries its position, its source URL, and the destination file
/// name derived from the position; no two jobs share a destination.
pub fn make_jobs(urls: &Vec<String>) -> (jobs: Vec<DownloadJob>)
    ensures
        jobs.len() == urls.len(),
        forall|i: int|
            0 <= i < jobs.len() ==> {
                &&& (#[trigger] jobs[i]).sequence_index == i
                &&& jobs[i].source_url@ == urls[i]@
                &&& jobs[i].file_name@ == spec_file_name(i as nat)
                &&& job_wf(jobs[i])
            },
        forall|i: int, j: int|
            0 <= i < jobs.len() && 0 <= j < jobs.len() && i != j ==> (#[trigger] jobs[i]).file_name@
                != (#[trigger] jobs[j]).file_name@,
{
    let mut jobs: Vec<DownloadJob> = Vec::new();
    let mut i: usize = 0;
    while i < urls.len()
        invariant
            i <= urls.len(),
            jobs.len() == i,
            forall|k: int|
                0 <= k < i ==> {
                    &&& (#[trigger] jobs[k]).sequence_index == k
                    &&& jobs[k].source_url@ == urls[k]@
                    &&& jobs[k].file_name@ == spec_file_name(k as nat)
                },
        decreases urls.len() - i,
    {
        let job = DownloadJob {
            sequence_index: i,
            source_url: urls[i].clone(),
            file_name: file_name_for(i),
        };
        jobs.push(job);
        i = i + 1;
    }
    proof {
        assert forall|a: int, b: int|
            0 <= a < jobs.len() && 0 <= b < jobs.len() && a != b implies (
        #[trigger] jobs[a]).file_name@ != (#[trigger] jobs[b]).file_name@ by {
            if a < b {
                lemma_file_names_monotonic(a as nat, b as nat);
            } else {
                lemma_file_names_monotonic(b as nat, a as nat);
            }
        }
    }
    jobs
}

} // verus!
