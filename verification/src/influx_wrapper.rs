//! Where the time-series store is found.

use vstd::prelude::*;
use vstd::string::StringExecFns;

verus! {

/// The address of an InfluxDB server and the database that takes the points.
#[derive(Clone, Debug, PartialEq, Eq)]
pub struct InfluxDbClient {
    pub address: String,
    pub port: String,
    pub database_name: String,
}

impl InfluxDbClient {
    /// The text of the server's URL: the address, a colon and the port.
    pub open spec fn endpoint_text(self) -> Seq<char> {
        self.address@ + seq![':'] + self.port@
    }

    /// Writes the server's URL out.
    pub fn endpoint(&self) -> (url: String)
        ensures
            url@ == self.endpoint_text(),
    {
        proof {
            reveal_strlit(":");
        }
        let mut url = self.address.clone();
        url.append(":");
        url.append(self.port.as_str());
        assert(url@ =~= self.endpoint_text());
        url
    }
}

} // verus!
