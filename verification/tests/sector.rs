use telewind::Sector;

#[test]
fn sector() {
    let sector = Sector(0, 45);

    assert_eq!(true, sector.test(0));
    assert_eq!(true, sector.test(30));
    assert_eq!(true, sector.test(45));

    assert_eq!(false, sector.test(46));
    assert_eq!(false, sector.test(359));

    let sector = Sector(280, 90);

    assert_eq!(true, sector.test(290));
    assert_eq!(true, sector.test(0));
    assert_eq!(true, sector.test(45));
    assert_eq!(true, sector.test(90));

    assert_eq!(false, sector.test(180));
    assert_eq!(false, sector.test(279));
}

#[test]
fn sector_normalizes_full_turns() {
    let sector = Sector(0, 45);

    assert_eq!(sector.test(30), sector.test(390));
    assert_eq!(sector.test(30), sector.test(750));
    assert_eq!(sector.test(46), sector.test(406));
    assert_eq!(true, sector.test(360));

    let sector = Sector(280, 90);

    assert_eq!(sector.test(290), sector.test(650));
    assert_eq!(sector.test(180), sector.test(540));
}
