use rengine::messages::s_item_bag;
use rengine::reader::BytesReader;
use rengine::writer::BytesWriter;

#[test]
fn testallptos() {
    println!("allptos:");
}

#[test]
fn testrwpto() {
    let mut s_equip_bag = s_item_bag::default();
    s_equip_bag.bagtype = 255;
    println!("{:?}", s_equip_bag);
    let msglen = s_equip_bag.size();
    println!("s_equip_bag.size: {}", s_equip_bag.size());
    let mut w = BytesWriter::new(msglen);
    s_equip_bag.write(&mut w).unwrap();
    let buf = w.into_vec();
    println!("s_equip_bag into buf: {:?}", buf);

    let mut r = BytesReader::new(0, buf.len());
    let s2 = s_item_bag::read(&mut r, &buf).unwrap();
    println!("s_equip_bag from buf: {:?}", s2);
    assert_eq!(s2.bagtype, 255);
}
