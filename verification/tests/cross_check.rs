use gridish::Resolution;
use gridref::osgb::{osgb_from_string, osgb_recalculate};
use gridref::osi::osi_from_string;

#[test]
fn cross_check_osgb_against_gridish() {
    for s in [
        "SO892437",
        "TL",
        "TL03",
        "TL0438",
        "TL048380",
        "TL04863802",
        "TL0486638023",
        "SV0000000000",
        "EE9999999999",
        "NN1660071250",
    ] {
        let mine = osgb_from_string(s).unwrap();
        let theirs: gridish::OSGB = s.parse().unwrap();
        assert_eq!(mine.0.eastings(), theirs.eastings(), "{}", s);
        assert_eq!(mine.0.northings(), theirs.northings(), "{}", s);
        assert_eq!(
            mine.0.precision().metres(),
            theirs.resolution().metres(),
            "{}",
            s
        );
        assert_eq!(mine.to_text(), theirs.to_string(), "{}", s);
    }
}

#[test]
fn cross_check_osi_against_gridish() {
    for s in ["O892437", "A", "Z9999999999", "N8090", "S1234512345"] {
        let mine = osi_from_string(s).unwrap();
        let theirs: gridish::OSI = s.parse().unwrap();
        assert_eq!(mine.0.eastings(), theirs.eastings(), "{}", s);
        assert_eq!(mine.0.northings(), theirs.northings(), "{}", s);
        assert_eq!(
            mine.0.precision().metres(),
            theirs.resolution().metres(),
            "{}",
            s
        );
        assert_eq!(mine.to_text(), theirs.to_string(), "{}", s);
    }
}

#[test]
fn cross_check_recalculation_against_gridish() {
    let mine = osgb_from_string("TL0486638023").unwrap();
    let theirs: gridish::OSGB = "TL0486638023".parse().unwrap();
    let steps = [
        (10, Resolution::_10m),
        (100, Resolution::_100m),
        (1_000, Resolution::_1km),
        (10_000, Resolution::_10km),
        (100_000, Resolution::_100km),
    ];
    for (m, res) in steps {
        let a = osgb_recalculate(mine, m).unwrap();
        let b = theirs.recalculate(res);
        assert_eq!(a.0.eastings(), b.eastings(), "{}", m);
        assert_eq!(a.0.northings(), b.northings(), "{}", m);
        assert_eq!(a.to_text(), b.to_string(), "{}", m);
    }
}

#[test]
fn cross_check_rejections_against_gridish() {
    for s in ["", "SO89243", "I12", "SO123456789012", "1234", "TL03X9"] {
        assert!(osgb_from_string(s).is_err(), "{}", s);
        assert!(s.parse::<gridish::OSGB>().is_err(), "{}", s);
    }
}
