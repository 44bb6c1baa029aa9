use vstd::prelude::*;

verus! {

/// Where a client finds the certificate that authenticates the broker over TLS.
pub struct MqttClientOption {
    pub cert: String,
}

impl MqttClientOption {
    pub fn new(cert: String) -> (r: MqttClientOption)
        ensures
            r.cert == cert,
    {
        MqttClientOption { cert }
    }
}

/// Where the broker finds its TLS certificate chain and private key (PEM files).
pub struct MqttServerOption {
    pub cert: String,
    pub key: String,
}

impl MqttServerOption {
    pub fn new(cert: String, key: String) -> (r: MqttServerOption)
        ensures
            r.cert == cert,
            r.key == key,
    {
        MqttServerOption { cert, key }
    }
}

} // verus!
