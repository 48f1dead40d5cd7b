use lightning_wire_msgs::items;
use lightning_wire_msgs::watchtower::messages::Init;
use lightning_wire_msgs::{PeekReader, WireMessage};

#[test]
fn bench() {
    let mut features = items::feature::RawFeatureVector::new();
    features.add(items::feature::Feature::DataLossProtectRequired);
    features.add(items::feature::Feature::GossipQueriesRequired);
    features.add(items::feature::Feature::InitialRoutingSync);
    let mut init = Init {
        conn_features: features,
        chain_hash: items::hash::Hash([0; 32]),
    };
    let mut expected = Vec::new();
    <Init as WireMessage>::encode(&init, &mut expected);
    let now = std::time::Instant::now();
    let mut buf = Vec::new();
    for _ in 0..1_000_000 {
        buf.truncate(0);
        <Init as WireMessage>::encode(&init, &mut buf);
        assert!(&buf == &expected);
        init = <Init as WireMessage>::decode(&mut PeekReader::new(&buf), true).expect("decode");
    }
    println!("{:?}", now.elapsed());
}
