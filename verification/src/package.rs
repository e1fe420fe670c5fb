//! A package as its index file describes it: every release, oldest first.

use vstd::prelude::*;
use vstd::string::*;
use crate::error::Error;
use crate::index_path::{get_index_path, index_path_of};
use crate::release::Release;
use crate::version::{satisfies, VersionReq};

verus! {

/// A line without the carriage return that may close it.
pub open spec fn without_return(line: Seq<u8>) -> Seq<u8> {
    if line.len() > 0 && line.last() == 13 {
        line.drop_last()
    } else {
        line
    }
}

/// The line as a list of lines: nothing for an empty line.
pub open spec fn unless_empty(line: Seq<u8>) -> Seq<Seq<u8>> {
    if line.len() == 0 {
        seq![]
    } else {
        seq![line]
    }
}

/// The non-empty lines of `content[start..]`, where `content[start..at]`
/// holds no line feed. A line ends at a line feed, or at a carriage return
/// and a line feed, or where the content ends.
pub open spec fn lines_from(content: Seq<u8>, start: int, at: int) -> Seq<Seq<u8>>
    recommends
        0 <= start <= at,
    decreases content.len() - at,
{
    if at >= content.len() {
        if start <= content.len() {
            unless_empty(content.subrange(start, content.len() as int))
        } else {
            seq![]
        }
    } else if 0 <= start <= at {
        if content[at] == 10 {
            unless_empty(without_return(content.subrange(start, at))) + lines_from(
                content,
                at + 1,
                at + 1,
            )
        } else {
            lines_from(content, start, at + 1)
        }
    } else {
        seq![]
    }
}

/// The non-empty lines of an index file, in order.
pub open spec fn index_lines_of(content: Seq<u8>) -> Seq<Seq<u8>> {
    lines_from(content, 0, 0)
}

/// The bytes of each line.
pub open spec fn line_views(lines: Seq<Vec<u8>>) -> Seq<Seq<u8>> {
    Seq::new(lines.len(), |i: int| lines[i]@)
}

fn copy_range(content: &[u8], from: usize, to: usize) -> (copy: Vec<u8>)
    requires
        from <= to <= content@.len(),
    ensures
        copy@ == content@.subrange(from as int, to as int),
{
    let mut copy: Vec<u8> = Vec::new();
    let mut i: usize = from;
    while i < to
        invariant
            from <= i <= to <= content@.len(),
            copy@ == content@.subrange(from as int, i as int),
        decreases to - i,
    {
        copy.push(content[i]);
        i += 1;
        assert(copy@ =~= content@.subrange(from as int, i as int));
    }
    copy
}

/// Cut an index file into its records: the non-empty lines, in order, each
/// without its line ending. Decoding a record is the caller's work.
pub fn index_lines(content: &[u8]) -> (lines: Vec<Vec<u8>>)
    ensures
        line_views(lines@) == index_lines_of(content@),
{
    let mut lines: Vec<Vec<u8>> = Vec::new();
    let mut start: usize = 0;
    let mut at: usize = 0;
    let n: usize = content.len();
    assert(line_views(lines@) =~= Seq::<Seq<u8>>::empty());
    while at < n
        invariant
            n == content@.len(),
            start <= at <= n,
            line_views(lines@) + lines_from(content@, start as int, at as int) == index_lines_of(
                content@,
            ),
        decreases n - at,
    {
        if content[at] == 10u8 {
            let mut end: usize = at;
            if end > start && content[end - 1] == 13u8 {
                end = end - 1;
            }
            assert(content@.subrange(start as int, end as int) =~= without_return(
                content@.subrange(start as int, at as int),
            ));
            let ghost before = line_views(lines@);
            if end > start {
                let line = copy_range(content, start, end);
                lines.push(line);
                assert(line_views(lines@) =~= before + seq![line@]);
            }
            assert(line_views(lines@) =~= before + unless_empty(
                without_return(content@.subrange(start as int, at as int)),
            ));
            assert((before + unless_empty(
                without_return(content@.subrange(start as int, at as int)),
            )) + lines_from(content@, at + 1, at + 1) =~= before + (unless_empty(
                without_return(content@.subrange(start as int, at as int)),
            ) + lines_from(content@, at + 1, at + 1)));
            start = at + 1;
        }
        at += 1;
    }
    let ghost before = line_views(lines@);
    if start < n {
        let line = copy_range(content, start, n);
        lines.push(line);
        assert(line_views(lines@) =~= before + seq![line@]);
    }
    assert(line_views(lines@) =~= before + lines_from(content@, start as int, at as int));
    lines
}

/// What a `Package` is, for contracts.
pub struct PackageView {
    /// The package's name
    pub name: Seq<char>,
    /// The path of the package's file in an index
    pub index_path: Seq<char>,
    /// The releases, oldest first
    pub releases: Seq<Release>,
}

/// All info on a package from its index file, including all of its releases
#[derive(Debug)]
pub struct Package {
    name: String,
    index_path: String,
    releases: Vec<Release>,
}

impl View for Package {
    type V = PackageView;

    closed spec fn view(&self) -> PackageView {
        PackageView { name: self.name@, index_path: self.index_path@, releases: self.releases@ }
    }
}

/// Whether `releases[at]` is the newest release that the requirement admits.
pub open spec fn is_newest_match(releases: Seq<Release>, requirement: Seq<char>, at: int) -> bool {
    &&& 0 <= at < releases.len()
    &&& satisfies(requirement, releases[at].vers@)
    &&& forall|later: int|
        at < later < releases.len() ==> !satisfies(requirement, #[trigger] releases[later].vers@)
}

/// Whether the requirement admits no release at all.
pub open spec fn no_match(releases: Seq<Release>, requirement: Seq<char>) -> bool {
    forall|i: int| 0 <= i < releases.len() ==> !satisfies(requirement, #[trigger] releases[i].vers@)
}

/// Whether every record was decoded.
pub open spec fn all_decoded(records: Seq<Result<Release, Error>>) -> bool {
    forall|i: int| 0 <= i < records.len() ==> (#[trigger] records[i]) is Ok
}

/// Whether `records[at]` is the first record that was not decoded.
pub open spec fn is_first_failure(records: Seq<Result<Release, Error>>, at: int) -> bool {
    &&& 0 <= at < records.len()
    &&& records[at] is Err
    &&& forall|earlier: int| 0 <= earlier < at ==> (#[trigger] records[earlier]) is Ok
}

/// The releases of records that were all decoded.
pub open spec fn decoded(records: Seq<Result<Release, Error>>) -> Seq<Release> {
    Seq::new(records.len(), |i: int| records[i]->Ok_0)
}

/// Whether `line` decodes to `record`: a line of these bytes for which the
/// decoder may give this record.
pub open spec fn decodes_to<F: Fn(&Vec<u8>) -> Result<Release, Error>>(
    decode: F,
    line: Seq<u8>,
    record: Result<Release, Error>,
) -> bool {
    exists|bytes: Vec<u8>| bytes@ == line && call_ensures(decode, (&bytes,), record)
}

/// Whether `records` are what decoding the lines in order gives, up to and
/// with the first line that fails.
pub open spec fn decoded_in_order<F: Fn(&Vec<u8>) -> Result<Release, Error>>(
    decode: F,
    lines: Seq<Seq<u8>>,
    records: Seq<Result<Release, Error>>,
) -> bool {
    &&& records.len() <= lines.len()
    &&& forall|i: int| 0 <= i < records.len() ==> decodes_to(decode, lines[i], #[trigger] records[i])
    &&& forall|i: int| 0 <= i < records.len() - 1 ==> (#[trigger] records[i]) is Ok
    &&& records.len() < lines.len() ==> records.len() > 0 && records.last() is Err
}

/// Whether `outcome` is what the records of an index file amount to.
///
/// The first record that was not decoded fails the whole with its error.
/// With every record decoded, a file without records is `EmptyIndex`;
/// otherwise the package holds every release in order, takes its name from
/// the last one, and its index path from that name.
pub open spec fn amounts_to(
    records: Seq<Result<Release, Error>>,
    outcome: Result<Package, Error>,
) -> bool {
    match outcome {
        Ok(package) => {
            &&& all_decoded(records)
            &&& records.len() > 0
            &&& package@.releases == decoded(records)
            &&& package@.name == records.last()->Ok_0.name@
            &&& package@.index_path == index_path_of(package@.name)
        },
        Err(error) => if all_decoded(records) {
            records.len() == 0 && error == Error::EmptyIndex
        } else {
            exists|at: int|
                is_first_failure(records, at) && records[at] == Err::<Release, Error>(error)
        },
    }
}

impl Package {
    #[verifier::type_invariant]
    spec fn well_formed(self) -> bool {
        &&& self.releases@.len() > 0
        &&& self.name@ == self.releases@.last().name@
        &&& self.index_path@ == index_path_of(self.name@)
    }

    /// Return this package's name: that of its newest release.
    pub fn name(&self) -> (name: &str)
        ensures
            name@ == self@.name,
            self@.releases.len() > 0,
            name@ == self@.releases.last().name@,
    {
        proof {
            use_type_invariant(self);
        }
        self.name.as_str()
    }

    /// Return the index path for this package
    pub fn index_path(&self) -> (path: &str)
        ensures
            path@ == self@.index_path,
            path@ == index_path_of(self@.name),
    {
        proof {
            use_type_invariant(self);
        }
        self.index_path.as_str()
    }

    /// Return the list of releases for this package, oldest first. There is
    /// always at least one.
    pub fn releases(&self) -> (releases: &Vec<Release>)
        ensures
            releases@ == self@.releases,
            releases@.len() > 0,
    {
        proof {
            use_type_invariant(self);
        }
        &self.releases
    }

    /// Convert into a package's latest release: the last of the list.
    pub fn into_latest(self) -> (latest: Option<Release>)
        ensures
            self@.releases.len() > 0,
            latest == Some(self@.releases.last()),
    {
        proof {
            use_type_invariant(&self);
        }
        let mut releases = self.releases;
        releases.pop()
    }

    /// Get a package's latest release: the last of the list.
    pub fn latest(&self) -> (latest: Option<&Release>)
        ensures
            self@.releases.len() > 0,
            latest == Some(&self@.releases.last()),
    {
        proof {
            use_type_invariant(self);
        }
        Some(&self.releases[self.releases.len() - 1])
    }

    /// Convert to the newest release that a version requirement admits.
    ///
    /// Releases are tried from the newest to the oldest, so with a
    /// requirement of `^0.1.0` this returns `0.1.9` before it returns `0.1.8`.
    /// A yanked release is a release like any other here.
    pub fn into_version(self, version_req: &VersionReq) -> (found: Option<Release>)
        ensures
            match found {
                Some(release) => exists|at: int|
                    is_newest_match(self@.releases, version_req@, at) && release
                        == self@.releases[at],
                None => no_match(self@.releases, version_req@),
            },
    {
        let ghost all = self@.releases;
        let mut releases = self.releases;
        while releases.len() > 0
            invariant
                all == self@.releases,
                releases@.len() <= all.len(),
                releases@ == all.subrange(0, releases@.len() as int),
                forall|later: int|
                    releases@.len() <= later < all.len() ==> !satisfies(
                        version_req@,
                        #[trigger] all[later].vers@,
                    ),
            decreases releases@.len(),
        {
            let ghost at = releases@.len() - 1;
            match releases.pop() {
                Some(release) => {
                    assert(release == all[at]);
                    if version_req.matches(&release.vers) {
                        assert(is_newest_match(all, version_req@, at) && release == all[at]);
                        return Some(release);
                    }
                    assert(releases@ =~= all.subrange(0, releases@.len() as int));
                },
                None => {},
            }
        }
        None
    }

    /// Find the newest release that a version requirement admits.
    ///
    /// Releases are tried from the newest to the oldest, so with a
    /// requirement of `^0.1.0` this returns `0.1.9` before it returns `0.1.8`.
    /// A yanked release is a release like any other here.
    pub fn version(&self, version_req: &VersionReq) -> (found: Option<&Release>)
        ensures
            match found {
                Some(release) => exists|at: int|
                    is_newest_match(self@.releases, version_req@, at) && *release
                        == self@.releases[at],
                None => no_match(self@.releases, version_req@),
            },
    {
        let mut remaining: usize = self.releases.len();
        while remaining > 0
            invariant
                remaining <= self.releases@.len(),
                forall|later: int|
                    remaining <= later < self.releases@.len() ==> !satisfies(
                        version_req@,
                        #[trigger] self.releases@[later].vers@,
                    ),
            decreases remaining,
        {
            remaining -= 1;
            if version_req.matches(&self.releases[remaining].vers) {
                assert(is_newest_match(self@.releases, version_req@, remaining as int));
                return Some(&self.releases[remaining]);
            }
        }
        None
    }

    /// Parse a package from its index file: cut the file into its records,
    /// decode them one by one with `decode`, and build the package from what
    /// came of it.
    ///
    /// Decoding stops at the first record that fails, and that failure is
    /// the result. A file without records, be it empty or all blank lines,
    /// is `EmptyIndex` whatever the decoder.
    pub fn from_index<F: Fn(&Vec<u8>) -> Result<Release, Error>>(content: &str, decode: F) -> (r:
        Result<Package, Error>)
        requires
            forall|line: Vec<u8>| call_requires(decode, (&line,)),
            forall|line: Vec<u8>, release: Release| #[trigger]
                call_ensures(decode, (&line,), Ok::<Release, Error>(release))
                    ==> release.name@.len() > 0,
        ensures
            exists|records: Seq<Result<Release, Error>>|
                #[trigger] decoded_in_order(decode, index_lines_of(content.spec_bytes()), records)
                    && amounts_to(records, r),
            index_lines_of(content.spec_bytes()).len() == 0 ==> r == Err::<Package, Error>(
                Error::EmptyIndex,
            ),
    {
        let lines = index_lines(content.as_bytes());
        let ghost texts = index_lines_of(content.spec_bytes());
        let mut records: Vec<Result<Release, Error>> = Vec::new();
        let mut at: usize = 0;
        let mut failed = false;
        assert(lines@.len() == texts.len()) by {
            assert(line_views(lines@).len() == lines@.len());
        }
        while at < lines.len() && !failed
            invariant
                lines@.len() == texts.len(),
                line_views(lines@) == texts,
                at <= lines@.len(),
                records@.len() == at,
                forall|i: int| 0 <= i < at ==> decodes_to(decode, texts[i], #[trigger] records@[i]),
                forall|i: int| 0 <= i < at - 1 ==> (#[trigger] records@[i]) is Ok,
                failed ==> at > 0 && records@.last() is Err,
                !failed && at > 0 ==> records@.last() is Ok,
                forall|line: Vec<u8>| call_requires(decode, (&line,)),
                forall|line: Vec<u8>, release: Release| #[trigger]
                    call_ensures(decode, (&line,), Ok::<Release, Error>(release))
                        ==> release.name@.len() > 0,
                forall|i: int|
                    0 <= i < at ==> ((#[trigger] records@[i]) matches Ok(release)
                        ==> release.name@.len() > 0),
            decreases lines@.len() - at,
        {
            let record = decode(&lines[at]);
            assert(decodes_to(decode, texts[at as int], record)) by {
                assert(lines@[at as int]@ == line_views(lines@)[at as int]);
            }
            failed = record.is_err();
            records.push(record);
            at += 1;
        }
        assert(decoded_in_order(decode, texts, records@));
        let ghost decoded_records = records@;
        let r = Package::from_records(records);
        assert(amounts_to(decoded_records, r));
        r
    }

    /// Build a package from the records of its index file, in the file's
    /// order, each decoded or not.
    ///
    /// The first record that was not decoded fails the whole with its error.
    /// With every record decoded, a file without records is `EmptyIndex`;
    /// otherwise the package holds every release in order, takes its name
    /// from the last one, and its index path from that name.
    pub fn from_records(records: Vec<Result<Release, Error>>) -> (r: Result<Package, Error>)
        requires
            records@.len() > 0 && records@.last() is Ok ==> records@.last()->Ok_0.name@.len() > 0,
        ensures
            amounts_to(records@, r),
    {
        let ghost all = records@;
        let mut records = records;
        let mut newest_first: Vec<Release> = Vec::new();
        let mut failure: Option<Error> = None;
        while records.len() > 0
            invariant
                records@.len() <= all.len(),
                records@ == all.subrange(0, records@.len() as int),
                match failure {
                    Some(error) => exists|at: int|
                        {
                            &&& records@.len() <= at < all.len()
                            &&& all[at] == Err::<Release, Error>(error)
                            &&& forall|earlier: int|
                                records@.len() <= earlier < at ==> (#[trigger] all[earlier]) is Ok
                        },
                    None => {
                        &&& newest_first@.len() == all.len() - records@.len()
                        &&& forall|i: int|
                            records@.len() <= i < all.len() ==> (#[trigger] all[i]) is Ok
                        &&& forall|i: int|
                            0 <= i < newest_first@.len() ==> #[trigger] newest_first@[i] == all[all.len()
                                - 1 - i]->Ok_0
                    },
                },
            decreases records@.len(),
        {
            let ghost at = records@.len() - 1;
            match records.pop() {
                Some(Ok(release)) => {
                    assert(all[at] == Ok::<Release, Error>(release));
                    if failure.is_none() {
                        newest_first.push(release);
                    }
                },
                Some(Err(error)) => {
                    assert(all[at] == Err::<Release, Error>(error));
                    failure = Some(error);
                },
                None => {},
            }
            assert(records@ =~= all.subrange(0, records@.len() as int));
        }
        match failure {
            Some(error) => {
                return Err(error);
            },
            None => {},
        }
        assert(all_decoded(all));
        if newest_first.len() == 0 {
            return Err(Error::EmptyIndex);
        }
        let mut releases: Vec<Release> = Vec::new();
        while newest_first.len() > 0
            invariant
                newest_first@.len() + releases@.len() == all.len(),
                forall|i: int|
                    0 <= i < newest_first@.len() ==> #[trigger] newest_first@[i] == all[all.len() - 1
                        - i]->Ok_0,
                forall|i: int| 0 <= i < releases@.len() ==> #[trigger] releases@[i] == all[i]->Ok_0,
            decreases newest_first@.len(),
        {
            match newest_first.pop() {
                Some(release) => {
                    releases.push(release);
                },
                None => {},
            }
        }
        assert(releases@ =~= decoded(all));
        let name = releases[releases.len() - 1].name.clone();
        let index_path = get_index_path(name.as_str());
        Ok(Package { name, index_path, releases })
    }
}

/// Whether a line is a record: not empty, and without a line feed.
pub open spec fn is_record_line(line: Seq<u8>) -> bool {
    &&& line.len() > 0
    &&& forall|j: int| 0 <= j < line.len() ==> line[j] != 10
}

/// Every line that an index file is cut into is a record: none is empty and
/// none holds a line feed.
pub proof fn lemma_lines_are_records(content: Seq<u8>)
    ensures
        forall|i: int|
            0 <= i < index_lines_of(content).len() ==> is_record_line(
                #[trigger] index_lines_of(content)[i],
            ),
{
    lemma_lines_from_are_records(content, 0, 0);
}

proof fn lemma_lines_from_are_records(content: Seq<u8>, start: int, at: int)
    requires
        0 <= start <= at <= content.len(),
        forall|k: int| start <= k < at ==> content[k] != 10,
    ensures
        forall|i: int|
            0 <= i < lines_from(content, start, at).len() ==> is_record_line(
                #[trigger] lines_from(content, start, at)[i],
            ),
    decreases content.len() - at,
{
    if at >= content.len() {
        let line = content.subrange(start, content.len() as int);
        assert forall|j: int| 0 <= j < line.len() implies line[j] != 10 by {
            assert(line[j] == content[start + j]);
        }
        assert(lines_from(content, start, at) == unless_empty(line));
        if line.len() > 0 {
            assert(unless_empty(line)[0] == line);
            assert(is_record_line(line));
        }
    } else if content[at] == 10 {
        lemma_lines_from_are_records(content, at + 1, at + 1);
        let whole = content.subrange(start, at);
        let line = without_return(whole);
        let head = unless_empty(line);
        let tail = lines_from(content, at + 1, at + 1);
        assert(lines_from(content, start, at) == head + tail);
        assert forall|j: int| 0 <= j < line.len() implies line[j] != 10 by {
            assert(line[j] == whole[j]);
            assert(whole[j] == content[start + j]);
        }
        assert forall|i: int| 0 <= i < (head + tail).len() implies is_record_line(
            #[trigger] (head + tail)[i],
        ) by {
            if i < head.len() {
                assert((head + tail)[i] == line);
                assert(is_record_line(line));
            } else {
                assert((head + tail)[i] == tail[i - head.len()]);
                assert(is_record_line(tail[i - head.len()]));
            }
        }
    } else {
        assert(lines_from(content, start, at) == lines_from(content, start, at + 1));
        lemma_lines_from_are_records(content, start, at + 1);
    }
}

/// A file of nothing but line feeds holds no record.
pub proof fn lemma_line_feeds_hold_no_record(content: Seq<u8>)
    requires
        forall|i: int| 0 <= i < content.len() ==> content[i] == 10,
    ensures
        index_lines_of(content).len() == 0,
{
    lemma_no_record_from(content, 0);
}

proof fn lemma_no_record_from(content: Seq<u8>, at: int)
    requires
        forall|i: int| 0 <= i < content.len() ==> content[i] == 10,
        0 <= at <= content.len(),
    ensures
        lines_from(content, at, at).len() == 0,
    decreases content.len() - at,
{
    if at < content.len() {
        lemma_no_record_from(content, at + 1);
        assert(content.subrange(at, at).len() == 0);
    } else {
        assert(content.subrange(at, content.len() as int).len() == 0);
    }
}

/// The newest match is one release: a requirement that admits any release
/// has exactly one newest release that it admits.
pub proof fn lemma_newest_match_is_unique(
    releases: Seq<Release>,
    requirement: Seq<char>,
    one: int,
    other: int,
)
    requires
        is_newest_match(releases, requirement, one),
        is_newest_match(releases, requirement, other),
    ensures
        one == other,
{
    if one < other {
        assert(!satisfies(requirement, releases[other].vers@));
    }
    if other < one {
        assert(!satisfies(requirement, releases[one].vers@));
    }
}

} // verus!
