//! What a host's applications log.

use vstd::prelude::*;
use vstd::string::*;

use crate::text::texts;

verus! {

/// The level at which everything is logged unless it is said otherwise.
pub open spec fn default_directive() -> Seq<char> {
    "info"@
}

/// The crates that talk too much and are held to a level of their own,
/// whatever the environment says.
pub open spec fn pinned_directives() -> Seq<Seq<char>> {
    seq![
        "tower=warn"@,
        "rustls=warn"@,
        "hyper=warn"@,
        "sqlx=info"@,
        "tokio_util::codec=warn"@,
        "h2=warn"@,
        "hickory_resolver::error=info"@,
        "hickory_proto::xfer=info"@,
        "hickory_resolver::name_server=info"@,
        "hickory_proto=info"@,
        "netlink_proto=warn"@,
    ]
}

/// The directives of the shared log filter.
pub struct FilterPlan {
    /// What holds where the environment says nothing.
    pub default_directive: String,
    /// What is added to what the environment says, in order.
    pub pinned: Vec<String>,
}

/// The directives of the shared log filter: `info` by default, with a few
/// talkative crates held quieter.
pub fn env_filter() -> (r: FilterPlan)
    ensures
        r.default_directive@ == default_directive(),
        texts(r.pinned@) == pinned_directives(),
{
    let mut pinned: Vec<String> = Vec::new();
    pinned.push("tower=warn".to_owned());
    pinned.push("rustls=warn".to_owned());
    pinned.push("hyper=warn".to_owned());
    pinned.push("sqlx=info".to_owned());
    pinned.push("tokio_util::codec=warn".to_owned());
    pinned.push("h2=warn".to_owned());
    pinned.push("hickory_resolver::error=info".to_owned());
    pinned.push("hickory_proto::xfer=info".to_owned());
    pinned.push("hickory_resolver::name_server=info".to_owned());
    pinned.push("hickory_proto=info".to_owned());
    pinned.push("netlink_proto=warn".to_owned());
    assert(texts(pinned@) =~= pinned_directives());
    FilterPlan { default_directive: "info".to_owned(), pinned }
}

/// Everything is logged from `info` on; the network crates are held to
/// warnings, and the database and name resolution crates to `info`.
pub proof fn law_talkative_crates_are_pinned()
    ensures
        default_directive() == "info"@,
        pinned_directives().len() == 11,
        pinned_directives() == seq![
            "tower=warn"@,
            "rustls=warn"@,
            "hyper=warn"@,
            "sqlx=info"@,
            "tokio_util::codec=warn"@,
            "h2=warn"@,
            "hickory_resolver::error=info"@,
            "hickory_proto::xfer=info"@,
            "hickory_resolver::name_server=info"@,
            "hickory_proto=info"@,
            "netlink_proto=warn"@,
        ],
{
}

} // verus!
