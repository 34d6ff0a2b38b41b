//! Bookkeeping for the `speedtest_server_info{server, country, isp}` series: after each
//! successful speedtest the series of the previous server is removed and one for the
//! current server is set, so that the gauge names only the server last measured against.
use vstd::prelude::*;

verus! {

/// The label values of one server-information series, in the order
/// `server`, `country`, `isp`.
pub open spec fn server_labels(server: Seq<char>, country: Seq<char>, isp: Seq<char>) -> Seq<
    Seq<char>,
> {
    seq![server, country, isp]
}

/// The optional label values, as text.
pub open spec fn opt_labels(o: Option<Vec<String>>) -> Option<Seq<Seq<char>>> {
    match o {
        Some(v) => Some(v.deep_view()),
        None => None,
    }
}

/// The series that exist after a success is recorded: the stale series (if any) is
/// removed, then the series of the fresh labels is set.
pub open spec fn series_after_success(
    series: Set<Seq<Seq<char>>>,
    stale: Option<Seq<Seq<char>>>,
    fresh: Seq<Seq<char>>,
) -> Set<Seq<Seq<char>>> {
    match stale {
        Some(old) => series.remove(old).insert(fresh),
        None => series.insert(fresh),
    }
}

/// The series that exist while `current` holds the labels of the last success.
pub open spec fn series_of(current: Option<Seq<Seq<char>>>) -> Set<Seq<Seq<char>>> {
    match current {
        Some(l) => set![l],
        None => Set::empty(),
    }
}

/// The labels of a series are exactly three, in the order server name, country, isp,
/// whatever the values are.
pub proof fn lemma_labels_name_server_country_isp(
    server: Seq<char>,
    country: Seq<char>,
    isp: Seq<char>,
)
    ensures
        server_labels(server, country, isp).len() == 3,
        server_labels(server, country, isp)[0] == server,
        server_labels(server, country, isp)[1] == country,
        server_labels(server, country, isp)[2] == isp,
{
}

/// Remembers the labels of the server-information series that is currently exported.
pub struct ServerInfoLabels {
    current: Option<Vec<String>>,
}

impl ServerInfoLabels {
    /// The labels of the exported series, if one has been set.
    pub closed spec fn current(&self) -> Option<Seq<Seq<char>>> {
        opt_labels(self.current)
    }

    /// No series has been set yet.
    pub fn new() -> (r: Self)
        ensures
            r.current() is None,
    {
        ServerInfoLabels { current: None }
    }

    /// Records a success against the given server: the given labels become the current
    /// ones, and the labels of the series set before (now stale, to be removed) are
    /// handed back.
    pub fn replace(&mut self, server: &str, country: &str, isp: &str) -> (stale: Option<Vec<String>>)
        ensures
            opt_labels(stale) == old(self).current(),
            final(self).current() == Some(server_labels(server@, country@, isp@)),
            final(self).current() matches Some(l) && l.len() == 3 && l[0] == server@ && l[1]
                == country@ && l[2] == isp@,
    {
        proof {
            lemma_labels_name_server_country_isp(server@, country@, isp@);
        }
        let mut fresh: Vec<String> = Vec::new();
        fresh.push(String::from_str(server));
        fresh.push(String::from_str(country));
        fresh.push(String::from_str(isp));
        assert(fresh.deep_view() =~= server_labels(server@, country@, isp@));
        let stale = self.current.take();
        self.current = Some(fresh);
        stale
    }
}

/// Removing the stale series and setting the fresh one keeps exactly one series: the one
/// of the last success. So, starting from no series, the gauge always names only the
/// server of the latest successful speedtest.
pub proof fn lemma_single_series(current: Option<Seq<Seq<char>>>, fresh: Seq<Seq<char>>)
    ensures
        series_after_success(series_of(current), current, fresh) == series_of(Some(fresh)),
{
    assert(series_after_success(series_of(current), current, fresh) =~= set![fresh]);
}

} // verus!
