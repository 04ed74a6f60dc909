use vstd::prelude::*;
use vstd::string::StringExecFns;
use crate::misc::tools::concat3;
use crate::misc::tools::decimal;
use crate::misc::tools::u64_to_string;
use super::Library;
use super::LibrarySummary;

verus! {

impl LibrarySummary {
    /// The report of the counters: the media and series counts, and the
    /// size of the media in whole kilobytes.
    pub open spec fn text(&self) -> Seq<char> {
        "Media count: "@ + decimal(self.media_count as nat) + "\nSeries count: "@ + decimal(
            self.series_count as nat,
        ) + "\nMedia Size: "@ + decimal((self.media_size / 1024) as nat) + " KB\n"@
    }

    pub fn to_string(&self) -> (r: String)
        ensures
            r@ == self.text(),
    {
        let mut r = concat3(
            "Media count: ",
            u64_to_string(self.media_count as u64).as_str(),
            "\nSeries count: ",
        );
        r.append(u64_to_string(self.series_count as u64).as_str());
        r.append("\nMedia Size: ");
        r.append(u64_to_string((self.media_size / 1024) as u64).as_str());
        r.append(" KB\n");
        r
    }
}

/// The statement that selects the ids of the media rows that meet
/// `filter`. The filter is passed through as it is given.
pub open spec fn media_query(filter: Seq<char>) -> Seq<char> {
    "SELECT id FROM media WHERE "@ + filter + ";"@
}

impl Library {
    /// The statement that selects the ids of the media rows that meet the
    /// filter `sql_stmt`, to be run on the stored catalog. The filter is
    /// not looked at: whoever supplies it answers for what it does.
    pub fn query_media(&self, sql_stmt: &str) -> (r: String)
        ensures
            r@ == media_query(sql_stmt@),
    {
        concat3("SELECT id FROM media WHERE ", sql_stmt, ";")
    }
}

} // verus!
