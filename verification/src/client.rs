use vstd::prelude::*;

use crate::headers::HeaderSet;
use crate::headers::admissible_pairs;
use crate::headers::header_map_of;
use crate::headers::pairs_view;
use crate::headers::valid_header_value;
use crate::trim::lemma_trimmed_idempotent;
use crate::trim::trim_to_string;

verus! {

/// Declares reqwest's client handle: the configured transport, opaque
/// here.  The handle is reference-counted inside reqwest, so sharing it is
/// cheap and all copies use one connection pool.
#[verifier::external_type_specification]
#[verifier::external_body]
pub struct ExClient(reqwest::Client);

/// Relies on Clone for reqwest::Client: cloning the handle shares the one
/// underlying transport client rather than deep-copying it.
pub assume_specification[ <reqwest::Client as Clone>::clone ](c: &reqwest::Client) -> (r:
    reqwest::Client);

/// Relies on reqwest::Client::builder, ClientBuilder::user_agent,
/// ClientBuilder::default_headers and ClientBuilder::build to assemble the
/// transport client.  Every name and value a well-formed `HeaderSet` holds
/// converts without error (HeaderName::from_bytes, HeaderValue::from_str
/// of the http crate accept exactly such strings); should the transport
/// still fail to assemble, the process is aborted: a client that cannot be
/// built means invalid compiled-in configuration, not a runtime condition.
#[verifier::external_body]
fn build_client(user_agent: &str, set: &HeaderSet) -> (r: reqwest::Client)
    requires
        valid_header_value(user_agent@),
        set.wf(),
{
    let mut map = reqwest::header::HeaderMap::new();
    for (name, value) in set.entries().iter() {
        let n = reqwest::header::HeaderName::from_bytes(name.as_bytes())
            .expect("Failed to create a Client");
        let v = reqwest::header::HeaderValue::from_str(value).expect("Failed to create a Client");
        map.insert(n, v);
    }
    reqwest::Client::builder().user_agent(user_agent).default_headers(map).build().expect(
        "Failed to create a Client",
    )
}

/// One configured transport client.  Immutable after construction; the
/// ghost field records the default header mapping the client was built
/// with, which the transport keeps opaque.
pub struct Request {
    client: reqwest::Client,
    defaults: Ghost<Map<Seq<char>, Seq<char>>>,
}

impl Request {
    /// The default header mapping the transport client was configured
    /// with.
    pub closed spec fn default_headers(&self) -> Map<Seq<char>, Seq<char>> {
        self.defaults@
    }

    /// Builds a client with the given user agent and, as default headers
    /// for every request it issues, the mapping the raw pairs produce:
    /// names and values trimmed, the last pair of a name winning.
    pub fn new(user_agent: &str, headers: &[(&str, &str)]) -> (r: Request)
        requires
            valid_header_value(user_agent@),
            admissible_pairs(headers@),
        ensures
            r.default_headers() == header_map_of(pairs_view(headers@)),
    {
        let set = Self::headers(headers);
        let client = build_client(user_agent, &set);
        let ghost defaults = set@;
        Request { client, defaults: Ghost(defaults) }
    }

    /// Builds the header set of the raw pairs: each name and each value
    /// trimmed, one entry per distinct trimmed name, a later pair
    /// overriding an earlier one of the same name.
    pub fn headers(pairs: &[(&str, &str)]) -> (r: HeaderSet)
        requires
            admissible_pairs(pairs@),
        ensures
            r.wf(),
            r@ == header_map_of(pairs_view(pairs@)),
    {
        let mut set = HeaderSet::empty();
        let n = pairs.len();
        let mut i: usize = 0;
        proof {
            assert(pairs_view(pairs@).take(0) =~= Seq::<(Seq<char>, Seq<char>)>::empty());
        }
        while i < n
            invariant
                i <= n,
                n == pairs@.len(),
                admissible_pairs(pairs@),
                set.wf(),
                set@ == header_map_of(pairs_view(pairs@).take(i as int)),
            decreases n - i,
        {
            let name = trim_to_string(pairs[i].0);
            let value = trim_to_string(pairs[i].1);
            proof {
                lemma_trimmed_idempotent(pairs@[i as int].0@);
                lemma_trimmed_idempotent(pairs@[i as int].1@);
            }
            set.insert(name, value);
            proof {
                let pv = pairs_view(pairs@);
                assert(pv.take(i + 1).drop_last() =~= pv.take(i as int));
                assert(pv.take(i + 1).last() == pv[i as int]);
            }
            i += 1;
        }
        proof {
            assert(pairs_view(pairs@).take(n as int) =~= pairs_view(pairs@));
        }
        set
    }

    /// The transport client handle, for the code that issues the GET
    /// requests and awaits their responses.
    pub fn client(&self) -> &reqwest::Client {
        &self.client
    }
}

impl Clone for Request {
    /// A clone shares the one transport client and keeps the same default
    /// header mapping.
    fn clone(&self) -> (r: Request)
        ensures
            r.default_headers() == self.default_headers(),
    {
        Request { client: self.client.clone(), defaults: Ghost(self.defaults@) }
    }
}

} // verus!
