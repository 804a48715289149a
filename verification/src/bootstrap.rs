//! Bootstrap payloads handed to freshly deployed plugins.

use vstd::prelude::*;

verus! {

/// Failure while loading bootstrap material.
#[derive(Clone, Debug)]
pub enum PluginBootstrapperError {
    IoError(String),
}

/// The response handed to a booting plugin: its binary and client
/// certificate.
#[derive(Clone, Debug)]
pub struct GetBootstrapInfoResponse {
    pub plugin_binary: Vec<u8>,
    pub certificate: Vec<u8>,
}

/// Holds a plugin's binary and certificate and serves them out, counting
/// how often the information has been requested.
pub struct PluginBootstrapper {
    pub certificate: Vec<u8>,
    pub plugin_binary: Vec<u8>,
    pub ctr: usize,
}

impl PluginBootstrapper {
    pub fn new(certificate: Vec<u8>, plugin_binary: Vec<u8>) -> (r: PluginBootstrapper)
        ensures
            r.certificate@ == certificate@,
            r.plugin_binary@ == plugin_binary@,
            r.ctr == 0,
    {
        PluginBootstrapper { certificate, plugin_binary, ctr: 0 }
    }

    /// Serve the bootstrap payload and count the request; the payload is
    /// expected to be requested once, but repeats are answered all the same.
    pub fn get_bootstrap_info(&mut self) -> (r: GetBootstrapInfoResponse)
        ensures
            r.plugin_binary@ == old(self).plugin_binary@,
            r.certificate@ == old(self).certificate@,
            final(self).plugin_binary@ == old(self).plugin_binary@,
            final(self).certificate@ == old(self).certificate@,
            final(self).ctr == if old(self).ctr < usize::MAX {
                old(self).ctr + 1
            } else {
                old(self).ctr as int
            },
    {
        if self.ctr < usize::MAX {
            self.ctr = self.ctr + 1;
        }
        let mut plugin_binary: Vec<u8> = Vec::new();
        let mut certificate: Vec<u8> = Vec::new();
        copy_bytes(&self.plugin_binary, &mut plugin_binary);
        copy_bytes(&self.certificate, &mut certificate);
        GetBootstrapInfoResponse { plugin_binary, certificate }
    }
}

fn copy_bytes(src: &Vec<u8>, dst: &mut Vec<u8>)
    requires
        old(dst)@.len() == 0,
    ensures
        final(dst)@ == src@,
{
    let mut idx: usize = 0;
    while idx < src.len()
        invariant
            idx <= src@.len(),
            dst@ == src@.subrange(0, idx as int),
        decreases src@.len() - idx,
    {
        dst.push(src[idx]);
        proof {
            assert(dst@ =~= src@.subrange(0, idx + 1));
        }
        idx = idx + 1;
    }
    proof {
        assert(dst@ =~= src@);
    }
}

} // verus!
