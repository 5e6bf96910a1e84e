use subtensor_client::subtensor::SubtensorUrl;

#[test]
fn well_known_urls() {
    assert_eq!(SubtensorUrl::Finney.as_ref(), "wss://entrypoint-finney.opentensor.ai:443");
    assert_eq!(SubtensorUrl::Archive.as_ref(), "wss://archive.chain.opentensor.ai:443/");
    assert_eq!(SubtensorUrl::Test.as_ref(), "wss://test.finney.opentensor.ai:443/");
    assert_eq!(SubtensorUrl::Local.as_ref(), "ws://127.0.0.1:9944");
}
