//! Time-boxed operator waivers.
//!
//! An operator with root access to the MCP server host can write a waiver file
//! at a known path. Each waiver entry names a cluster, VMID, expiry timestamp,
//! and reason. When a destructive operation would be refused by the protection
//! system, a matching unexpired waiver allows it to proceed.
//!
//! An absent file is an empty waiver list, not an error.
use vstd::prelude::*;
use vstd::string::*;

use crate::text::{
    copy_option, decimal, decimal_text, has_text, lemma_has_end, same_text, str_option, text_option,
};

verus! {

/// Errors loading or parsing a waiver file.
#[derive(Debug, PartialEq, Eq)]
pub enum WaiverError {
    /// The hardened file loader refused the file; carries its reason.
    SecurityCheck(String),
    /// JSON parsing failed; carries the reason.
    InvalidJson(String),
    /// Unsupported version.
    UnsupportedVersion(u32),
    /// RFC 3339 timestamp parsing failed; carries the reason.
    InvalidTimestamp(String),
}

/// An error with a waiver file, as a mathematical value.
pub enum WaiverErrorView {
    SecurityCheck(Seq<char>),
    InvalidJson(Seq<char>),
    UnsupportedVersion(u32),
    InvalidTimestamp(Seq<char>),
}

impl View for WaiverError {
    type V = WaiverErrorView;

    open spec fn view(&self) -> WaiverErrorView {
        match self {
            WaiverError::SecurityCheck(s) => WaiverErrorView::SecurityCheck(s@),
            WaiverError::InvalidJson(s) => WaiverErrorView::InvalidJson(s@),
            WaiverError::UnsupportedVersion(v) => WaiverErrorView::UnsupportedVersion(*v),
            WaiverError::InvalidTimestamp(s) => WaiverErrorView::InvalidTimestamp(s@),
        }
    }
}

impl WaiverErrorView {
    /// The message an operator reads.
    pub open spec fn message(self) -> Seq<char> {
        match self {
            WaiverErrorView::SecurityCheck(s) => "waiver file security check failed: "@ + s,
            WaiverErrorView::InvalidJson(s) => "waiver file is not valid json: "@ + s,
            WaiverErrorView::UnsupportedVersion(v) => "unsupported waiver file version: "@
                + decimal(v as nat),
            WaiverErrorView::InvalidTimestamp(s) => "invalid timestamp in waiver entry: "@ + s,
        }
    }
}

impl WaiverError {
    /// The message an operator reads.
    pub fn message(&self) -> (r: String)
        ensures
            r@ == self@.message(),
    {
        match self {
            WaiverError::SecurityCheck(s) => {
                let mut out = "waiver file security check failed: ".to_owned();
                out.append(s.as_str());
                out
            },
            WaiverError::InvalidJson(s) => {
                let mut out = "waiver file is not valid json: ".to_owned();
                out.append(s.as_str());
                out
            },
            WaiverError::UnsupportedVersion(v) => {
                let mut out = "unsupported waiver file version: ".to_owned();
                out.append(decimal_text(*v as u64).as_str());
                out
            },
            WaiverError::InvalidTimestamp(s) => {
                let mut out = "invalid timestamp in waiver entry: ".to_owned();
                out.append(s.as_str());
                out
            },
        }
    }
}

/// One waiver entry from the file.
#[derive(Debug)]
pub struct WaiverEntry {
    cluster: String,
    vmid: u32,
    until_unix: u64,
    reason: String,
    ticket: Option<String>,
}

/// One waiver entry, as a mathematical value.
pub struct WaiverView {
    pub cluster: Seq<char>,
    pub vmid: u32,
    pub until_unix: u64,
    pub reason: Seq<char>,
    pub ticket: Option<Seq<char>>,
}

impl View for WaiverEntry {
    type V = WaiverView;

    closed spec fn view(&self) -> WaiverView {
        WaiverView {
            cluster: self.cluster@,
            vmid: self.vmid,
            until_unix: self.until_unix,
            reason: self.reason@,
            ticket: text_option(self.ticket),
        }
    }
}

impl WaiverView {
    /// Whether the waiver covers a guest at a moment: exact cluster, exact
    /// vmid, and not yet expired.
    pub open spec fn covers(self, cluster: Seq<char>, vmid: u32, now_unix: u64) -> bool {
        self.cluster == cluster && self.vmid == vmid && now_unix < self.until_unix
    }
}

/// The first waiver of a list that covers a guest at a moment.
pub open spec fn first_covering(
    waivers: Seq<WaiverView>,
    cluster: Seq<char>,
    vmid: u32,
    now_unix: u64,
) -> Option<WaiverView>
    decreases waivers.len(),
{
    if waivers.len() == 0 {
        None
    } else if waivers[0].covers(cluster, vmid, now_unix) {
        Some(waivers[0])
    } else {
        first_covering(waivers.skip(1), cluster, vmid, now_unix)
    }
}

impl WaiverEntry {
    /// Create a waiver entry.
    #[must_use]
    pub fn new(
        cluster: String,
        vmid: u32,
        until_unix: u64,
        reason: String,
        ticket: Option<String>,
    ) -> (r: Self)
        ensures
            r@ == (WaiverView {
                cluster: cluster@,
                vmid,
                until_unix,
                reason: reason@,
                ticket: text_option(ticket),
            }),
    {
        WaiverEntry { cluster, vmid, until_unix, reason, ticket }
    }

    /// The reason for this waiver.
    #[must_use]
    pub fn reason(&self) -> (r: &str)
        ensures
            r@ == self@.reason,
    {
        self.reason.as_str()
    }

    /// The change ticket, if any.
    #[must_use]
    pub fn ticket(&self) -> (r: Option<&str>)
        ensures
            str_option(r) == self@.ticket,
    {
        match &self.ticket {
            Some(ticket) => Some(ticket.as_str()),
            None => None,
        }
    }

    /// The cluster this waiver applies to.
    #[must_use]
    pub fn cluster(&self) -> (r: &str)
        ensures
            r@ == self@.cluster,
    {
        self.cluster.as_str()
    }

    /// The VMID this waiver applies to.
    #[must_use]
    pub fn vmid(&self) -> (r: u32)
        ensures
            r == self@.vmid,
    {
        self.vmid
    }

    /// The unix timestamp when this waiver expires.
    #[must_use]
    pub fn until_unix(&self) -> (r: u64)
        ensures
            r == self@.until_unix,
    {
        self.until_unix
    }
}

impl Clone for WaiverEntry {
    fn clone(&self) -> (r: Self)
        ensures
            r@ == self@,
    {
        WaiverEntry {
            cluster: self.cluster.clone(),
            vmid: self.vmid,
            until_unix: self.until_unix,
            reason: self.reason.clone(),
            ticket: copy_option(&self.ticket),
        }
    }
}

/// One entry as it stands in the file, its expiry still text.
#[derive(Debug)]
pub struct WaiverRecord {
    /// Cluster the waiver applies to.
    pub cluster: String,
    /// VMID the waiver applies to.
    pub vmid: u32,
    /// Expiry, in RFC 3339.
    pub until: String,
    /// Why the waiver was given.
    pub reason: String,
    /// The change ticket, if any.
    pub ticket: Option<String>,
}

/// An entry as it stands in the file, as a mathematical value.
pub struct RecordView {
    pub cluster: Seq<char>,
    pub vmid: u32,
    pub until: Seq<char>,
    pub reason: Seq<char>,
    pub ticket: Option<Seq<char>>,
}

impl View for WaiverRecord {
    type V = RecordView;

    open spec fn view(&self) -> RecordView {
        RecordView {
            cluster: self.cluster@,
            vmid: self.vmid,
            until: self.until@,
            reason: self.reason@,
            ticket: text_option(self.ticket),
        }
    }
}

/// The entries as they stand in a file.
pub open spec fn records(v: Seq<WaiverRecord>) -> Seq<RecordView> {
    v.map_values(|w: WaiverRecord| w@)
}

/// What an RFC 3339 text is read as: seconds since the Unix epoch, or the text
/// of the error.
pub uninterp spec fn rfc3339_unix(text: Seq<char>) -> Result<i64, Seq<char>>;

/// `chrono::DateTime::parse_from_rfc3339`, and the `timestamp` of what it
/// reads. The result depends on the text alone and goes by the name
/// [`rfc3339_unix`].
#[verifier::external_body]
fn read_rfc3339(text: &str) -> (r: Result<i64, String>)
    ensures
        match r {
            Ok(seconds) => rfc3339_unix(text@) == Ok::<i64, Seq<char>>(seconds),
            Err(error) => rfc3339_unix(text@) == Err::<i64, Seq<char>>(error@),
        },
{
    match chrono::DateTime::parse_from_rfc3339(text) {
        Ok(moment) => Ok(moment.timestamp()),
        Err(error) => Err(error.to_string()),
    }
}

/// The unix timestamp of an expiry that lies `seconds` after the epoch. One
/// before the epoch has passed at every moment, as one at the epoch has.
pub open spec fn expiry(seconds: i64) -> u64 {
    if seconds < 0 {
        0
    } else {
        seconds as u64
    }
}

/// What an entry of a file means once its expiry was read.
pub open spec fn entry_of(record: RecordView, until: Result<i64, Seq<char>>) -> Result<
    WaiverView,
    WaiverErrorView,
> {
    match until {
        Ok(seconds) => Ok(
            WaiverView {
                cluster: record.cluster,
                vmid: record.vmid,
                until_unix: expiry(seconds),
                reason: record.reason,
                ticket: record.ticket,
            },
        ),
        Err(error) => Err(WaiverErrorView::InvalidTimestamp(error)),
    }
}

/// The entries of a file, or the error of the first whose expiry cannot be
/// read.
pub open spec fn entries_of(file: Seq<RecordView>) -> Result<Seq<WaiverView>, WaiverErrorView>
    decreases file.len(),
{
    if file.len() == 0 {
        Ok(Seq::empty())
    } else {
        match entries_of(file.drop_last()) {
            Err(error) => Err(error),
            Ok(before) => match entry_of(file.last(), rfc3339_unix(file.last().until)) {
                Ok(entry) => Ok(before.push(entry)),
                Err(error) => Err(error),
            },
        }
    }
}

/// What the contents of a file mean: the waivers of its records, where the file
/// has the version that is understood.
pub open spec fn file_read(version: u32, file: Seq<RecordView>) -> Result<
    Seq<WaiverView>,
    WaiverErrorView,
> {
    if version != 1 {
        Err(WaiverErrorView::UnsupportedVersion(version))
    } else {
        entries_of(file)
    }
}

/// An entry once its expiry was read.
pub fn entry_from(record: &WaiverRecord, until: Result<i64, String>) -> (r: Result<
    WaiverEntry,
    WaiverError,
>)
    ensures
        match (until, r) {
            (Ok(seconds), Ok(entry)) => entry_of(record@, Ok(seconds)) == Ok::<
                WaiverView,
                WaiverErrorView,
            >(entry@),
            (Err(reason), Err(error)) => entry_of(record@, Err(reason@)) == Err::<
                WaiverView,
                WaiverErrorView,
            >(error@),
            _ => false,
        },
{
    match until {
        Ok(seconds) => {
            let until_unix: u64 = if seconds < 0 {
                0
            } else {
                seconds as u64
            };
            Ok(
                WaiverEntry {
                    cluster: record.cluster.clone(),
                    vmid: record.vmid,
                    until_unix,
                    reason: record.reason.clone(),
                    ticket: copy_option(&record.ticket),
                },
            )
        },
        Err(reason) => Err(WaiverError::InvalidTimestamp(reason)),
    }
}

/// The loaded waivers.
#[derive(Debug)]
pub struct WaiverFile {
    waivers: Vec<WaiverEntry>,
}

/// The entries of a list of waivers.
pub open spec fn waiver_views(v: Seq<WaiverEntry>) -> Seq<WaiverView> {
    v.map_values(|w: WaiverEntry| w@)
}

impl View for WaiverFile {
    type V = Seq<WaiverView>;

    closed spec fn view(&self) -> Seq<WaiverView> {
        waiver_views(self.waivers@)
    }
}

proof fn lemma_entries_error_stays(file: Seq<RecordView>, n: int)
    requires
        0 <= n <= file.len(),
        entries_of(file.take(n)) is Err,
    ensures
        entries_of(file) == entries_of(file.take(n)),
    decreases file.len(),
{
    if n == file.len() {
        assert(file.take(n) =~= file);
    } else {
        assert(file.drop_last().take(n) =~= file.take(n));
        lemma_entries_error_stays(file.drop_last(), n);
    }
}

impl WaiverFile {
    /// Create an empty waiver list (no waivers active).
    #[must_use]
    pub fn empty() -> (r: Self)
        ensures
            r@ == Seq::<WaiverView>::empty(),
    {
        let r = WaiverFile { waivers: Vec::new() };
        proof {
            assert(r@ =~= Seq::<WaiverView>::empty());
        }
        r
    }

    /// Create a waiver list with specific entries.
    #[must_use]
    pub fn with_entries(waivers: Vec<WaiverEntry>) -> (r: Self)
        ensures
            r@ == waiver_views(waivers@),
    {
        WaiverFile { waivers }
    }

    /// Read the contents of a waiver file: version 1, and an expiry in RFC 3339
    /// on every entry.
    pub fn from_records(version: u32, file: &Vec<WaiverRecord>) -> (r: Result<Self, WaiverError>)
        ensures
            match r {
                Ok(loaded) => file_read(version, records(file@)) == Ok::<
                    Seq<WaiverView>,
                    WaiverErrorView,
                >(loaded@),
                Err(error) => file_read(version, records(file@)) == Err::<
                    Seq<WaiverView>,
                    WaiverErrorView,
                >(error@),
            },
    {
        if version != 1 {
            return Err(WaiverError::UnsupportedVersion(version));
        }
        let ghost all = records(file@);
        let mut waivers: Vec<WaiverEntry> = Vec::new();
        let mut i: usize = 0;
        proof {
            assert(all.take(0) =~= Seq::<RecordView>::empty());
            assert(waiver_views(waivers@) =~= Seq::<WaiverView>::empty());
        }
        while i < file.len()
            invariant
                version == 1,
                i <= file@.len(),
                all == records(file@),
                entries_of(all.take(i as int)) == Ok::<Seq<WaiverView>, WaiverErrorView>(
                    waiver_views(waivers@),
                ),
            decreases file@.len() - i,
        {
            let until = read_rfc3339(file[i].until.as_str());
            proof {
                assert(all.take(i as int + 1).drop_last() =~= all.take(i as int));
                assert(all.take(i as int + 1).last() == file@[i as int]@);
            }
            match entry_from(&file[i], until) {
                Ok(entry) => {
                    let ghost before = waivers@;
                    waivers.push(entry);
                    proof {
                        assert(waiver_views(waivers@) =~= waiver_views(before).push(entry@));
                    }
                },
                Err(error) => {
                    proof {
                        lemma_entries_error_stays(all, i as int + 1);
                    }
                    return Err(error);
                },
            }
            i += 1;
        }
        proof {
            assert(all.take(i as int) =~= all);
        }
        Ok(WaiverFile { waivers })
    }

    /// Find a matching unexpired waiver for the given guest.
    ///
    /// Returns the first matching entry where cluster and VMID match exactly
    /// and `now_unix < until_unix`.
    #[must_use]
    pub fn matching(&self, cluster: &str, vmid: u32, now_unix: u64) -> (r: Option<&WaiverEntry>)
        ensures
            match r {
                Some(entry) => first_covering(self@, cluster@, vmid, now_unix) == Some(entry@),
                None => first_covering(self@, cluster@, vmid, now_unix) is None,
            },
    {
        let mut i: usize = 0;
        proof {
            assert(self@.skip(0) =~= self@);
        }
        while i < self.waivers.len()
            invariant
                i <= self.waivers@.len(),
                first_covering(self@, cluster@, vmid, now_unix) == first_covering(
                    self@.skip(i as int),
                    cluster@,
                    vmid,
                    now_unix,
                ),
            decreases self.waivers@.len() - i,
        {
            let entry = &self.waivers[i];
            proof {
                assert(self@.skip(i as int)[0] == entry@);
                assert(self@.skip(i as int).skip(1) =~= self@.skip(i as int + 1));
            }
            if same_text(entry.cluster.as_str(), cluster) && entry.vmid == vmid && now_unix
                < entry.until_unix {
                return Some(entry);
            }
            i += 1;
        }
        None
    }
}

// ---------------------------------------------------------------------------
// What holds of every waiver list
// ---------------------------------------------------------------------------
/// A waiver is found exactly when some entry covers the guest, and what is
/// found covers it.
pub proof fn law_a_waiver_is_found_when_one_covers(
    waivers: Seq<WaiverView>,
    cluster: Seq<char>,
    vmid: u32,
    now_unix: u64,
)
    ensures
        first_covering(waivers, cluster, vmid, now_unix) is Some <==> exists|i: int|
            0 <= i < waivers.len() && (#[trigger] waivers[i]).covers(cluster, vmid, now_unix),
        first_covering(waivers, cluster, vmid, now_unix) matches Some(w) ==> waivers.contains(w)
            && w.covers(cluster, vmid, now_unix),
    decreases waivers.len(),
{
    if waivers.len() > 0 {
        if waivers[0].covers(cluster, vmid, now_unix) {
            assert(waivers.contains(waivers[0]));
        } else {
            let rest = waivers.skip(1);
            law_a_waiver_is_found_when_one_covers(rest, cluster, vmid, now_unix);
            if exists|i: int|
                0 <= i < waivers.len() && (#[trigger] waivers[i]).covers(cluster, vmid, now_unix) {
                let i = choose|i: int|
                    0 <= i < waivers.len() && (#[trigger] waivers[i]).covers(
                        cluster,
                        vmid,
                        now_unix,
                    );
                assert(rest[i - 1] == waivers[i]);
            }
            if exists|i: int|
                0 <= i < rest.len() && (#[trigger] rest[i]).covers(cluster, vmid, now_unix) {
                let i = choose|i: int|
                    0 <= i < rest.len() && (#[trigger] rest[i]).covers(cluster, vmid, now_unix);
                assert(waivers[i + 1] == rest[i]);
                let w = first_covering(rest, cluster, vmid, now_unix)->0;
                let k = choose|k: int| 0 <= k < rest.len() && rest[k] == w;
                assert(waivers[k + 1] == w);
            }
        }
    }
}

/// Time closes a waiver and never reopens it: what is not waived at one moment
/// is not waived at a later one.
pub proof fn law_an_expired_waiver_stays_expired(
    waivers: Seq<WaiverView>,
    cluster: Seq<char>,
    vmid: u32,
    now_unix: u64,
    later_unix: u64,
)
    requires
        now_unix <= later_unix,
        first_covering(waivers, cluster, vmid, now_unix) is None,
    ensures
        first_covering(waivers, cluster, vmid, later_unix) is None,
    decreases waivers.len(),
{
    if waivers.len() > 0 {
        law_an_expired_waiver_stays_expired(
            waivers.skip(1),
            cluster,
            vmid,
            now_unix,
            later_unix,
        );
    }
}

/// A waiver is what its record says: for that cluster and that vmid, for that
/// reason and under that ticket, until the moment the record's expiry was read
/// as; one that lies before the epoch has passed at every moment.
pub proof fn law_a_waiver_is_what_its_record_says(
    record: RecordView,
    seconds: i64,
    cluster: Seq<char>,
    vmid: u32,
    now_unix: u64,
)
    ensures
        entry_of(record, Ok(seconds)) is Ok,
        entry_of(record, Ok(seconds)) matches Ok(waiver) ==> {
            &&& waiver.cluster == record.cluster
            &&& waiver.vmid == record.vmid
            &&& waiver.reason == record.reason
            &&& waiver.ticket == record.ticket
            &&& seconds >= 0 ==> waiver.until_unix as int == seconds as int
            &&& seconds < 0 ==> waiver.until_unix == 0
            &&& waiver.covers(cluster, vmid, now_unix) <==> record.cluster == cluster && record.vmid
                == vmid && now_unix < seconds
        },
{
}

/// A file holds the waivers of its records, one for each and in their order; it
/// is refused where the expiry of one cannot be read.
pub proof fn law_a_file_holds_the_waivers_of_its_records(file: Seq<RecordView>)
    ensures
        entries_of(file) is Err <==> exists|i: int|
            0 <= i < file.len() && rfc3339_unix((#[trigger] file[i]).until) is Err,
        entries_of(file) matches Ok(waivers) ==> waivers.len() == file.len() && forall|i: int|
            0 <= i < file.len() ==> entry_of(file[i], rfc3339_unix(file[i].until)) == Ok::<
                WaiverView,
                WaiverErrorView,
            >(#[trigger] waivers[i]),
    decreases file.len(),
{
    if file.len() > 0 {
        let before = file.drop_last();
        law_a_file_holds_the_waivers_of_its_records(before);
        let last = file.len() as int - 1;
        assert(file[last] == file.last());
        assert forall|i: int| 0 <= i < before.len() implies #[trigger] before[i] == file[i] by {}
        if exists|i: int| 0 <= i < before.len() && rfc3339_unix((#[trigger] before[i]).until) is Err {
            let i = choose|i: int|
                0 <= i < before.len() && rfc3339_unix((#[trigger] before[i]).until) is Err;
            assert(rfc3339_unix(file[i].until) is Err);
        }
        if exists|i: int| 0 <= i < file.len() && rfc3339_unix((#[trigger] file[i]).until) is Err {
            let i = choose|i: int|
                0 <= i < file.len() && rfc3339_unix((#[trigger] file[i]).until) is Err;
            if i < last {
                assert(rfc3339_unix(before[i].until) is Err);
            }
        }
        if rfc3339_unix(file.last().until) is Err {
            assert(rfc3339_unix(file[last].until) is Err);
        }
        if let Ok(waivers) = entries_of(file) {
            let earlier = entries_of(before)->Ok_0;
            assert forall|i: int| 0 <= i < file.len() implies entry_of(
                file[i],
                rfc3339_unix(file[i].until),
            ) == Ok::<WaiverView, WaiverErrorView>(#[trigger] waivers[i]) by {
                if i < last {
                    assert(waivers[i] == earlier[i]);
                    assert(before[i] == file[i]);
                }
            }
        }
    }
}

/// Where several waivers cover a guest, the first of the file is the one that
/// is found.
pub proof fn law_the_first_waiver_that_covers_is_found(
    waivers: Seq<WaiverView>,
    cluster: Seq<char>,
    vmid: u32,
    now_unix: u64,
    i: int,
)
    requires
        0 <= i < waivers.len(),
        waivers[i].covers(cluster, vmid, now_unix),
        forall|j: int| 0 <= j < i ==> !(#[trigger] waivers[j]).covers(cluster, vmid, now_unix),
    ensures
        first_covering(waivers, cluster, vmid, now_unix) == Some(waivers[i]),
    decreases i,
{
    if i > 0 {
        let rest = waivers.skip(1);
        assert forall|j: int| 0 <= j < i - 1 implies !(#[trigger] rest[j]).covers(
            cluster,
            vmid,
            now_unix,
        ) by {
            assert(rest[j] == waivers[j + 1]);
        }
        assert(!waivers[0].covers(cluster, vmid, now_unix));
        law_the_first_waiver_that_covers_is_found(rest, cluster, vmid, now_unix, i - 1);
    }
}

/// A file that is refused is refused with what is wrong with it.
pub proof fn law_a_waiver_error_tells_what_is_wrong(error: WaiverErrorView)
    ensures
        error matches WaiverErrorView::SecurityCheck(s) ==> has_text(error.message(), s),
        error matches WaiverErrorView::InvalidJson(s) ==> has_text(error.message(), s),
        error matches WaiverErrorView::UnsupportedVersion(v) ==> has_text(
            error.message(),
            decimal(v as nat),
        ),
        error matches WaiverErrorView::InvalidTimestamp(s) ==> has_text(error.message(), s),
{
    match error {
        WaiverErrorView::SecurityCheck(s) => lemma_has_end("waiver file security check failed: "@, s),
        WaiverErrorView::InvalidJson(s) => lemma_has_end("waiver file is not valid json: "@, s),
        WaiverErrorView::UnsupportedVersion(v) => lemma_has_end(
            "unsupported waiver file version: "@,
            decimal(v as nat),
        ),
        WaiverErrorView::InvalidTimestamp(s) => lemma_has_end(
            "invalid timestamp in waiver entry: "@,
            s,
        ),
    }
}

/// A file of another version than 1 is refused by its version, and one of
/// version 1 is what its records say.
pub proof fn law_only_one_version_is_understood(version: u32, file: Seq<RecordView>)
    ensures
        version == 1 ==> file_read(version, file) == entries_of(file),
        version != 1 ==> file_read(version, file) == Err::<Seq<WaiverView>, WaiverErrorView>(
            WaiverErrorView::UnsupportedVersion(version),
        ),
{
}

} // verus!
