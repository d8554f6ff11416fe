use gridref::osgb::{
    osgb_from_eastings_northings, osgb_from_string, osgb_is_valid, osgb_precision,
    osgb_recalculate, OSGB,
};
use gridref::osi::{osi_from_eastings_northings, osi_from_string, osi_precision, osi_recalculate};
use gridref::reference::{GridReference, System};
use gridref::shared::{parse_precision, GridError, Precision};

#[test]
fn test_osgb_from_eastings_northings() {
    assert_eq!(
        "SO892437",
        osgb_from_eastings_northings(389_200, 243_700, 100)
            .unwrap()
            .to_text()
    );
}

#[test]
fn test_osgb_from_string() {
    assert_eq!("SO892437", osgb_from_string("SO892437").unwrap().to_text());
}

#[test]
fn test_osgb_is_valid() {
    assert_eq!(true, osgb_is_valid("SO892437"));
    assert_eq!(false, osgb_is_valid("SO89243"));
}

#[test]
fn test_osgb_precision() {
    assert_eq!(100, osgb_precision(osgb_from_string("SO892437").unwrap()));
}

#[test]
fn test_osgb_recalculate() {
    assert_eq!(
        osgb_from_string("SO8943").unwrap(),
        osgb_recalculate(osgb_from_string("SO892437").unwrap(), 1000).unwrap()
    );
    assert_eq!(
        osgb_from_string("SO892437").unwrap(),
        osgb_recalculate(osgb_from_string("SO892437").unwrap(), 1).unwrap()
    );
}

#[test]
fn test_osi_from_eastings_northings() {
    assert_eq!(
        "O892437",
        osi_from_eastings_northings(389_200, 243_700, 100)
            .unwrap()
            .to_text()
    );
}

#[test]
fn test_osi_from_string() {
    assert_eq!("O892437", osi_from_string("O892437").unwrap().to_text());
}

#[test]
fn test_osi_precision() {
    assert_eq!(100, osi_precision(osi_from_string("O892437").unwrap()));
}

#[test]
fn test_osi_recalculate() {
    assert_eq!(
        osi_from_string("O8943").unwrap(),
        osi_recalculate(osi_from_string("O892437").unwrap(), 1000).unwrap()
    );
    assert_eq!(
        osi_from_string("O892437").unwrap(),
        osi_recalculate(osi_from_string("O892437").unwrap(), 1).unwrap()
    );
}

#[test]
fn parse_reports_exact_coordinates() {
    let g = osgb_from_string("SO892437").unwrap().0;
    assert_eq!(g.eastings(), 389_200);
    assert_eq!(g.northings(), 243_700);
    assert_eq!(g.precision(), Precision::M100);
    assert_eq!(g.system(), System::Osgb);
}

#[test]
fn unsupported_precisions_are_refused() {
    for p in [0, -1, 2, 3, 50, 200, 500, 2001, 20_000, 99_999, 1_000_000] {
        assert_eq!(parse_precision(p), Err(GridError::UnsupportedPrecision));
        assert_eq!(
            osgb_from_eastings_northings(1, 1, p),
            Err(GridError::UnsupportedPrecision)
        );
        assert_eq!(
            osi_from_eastings_northings(1, 1, p),
            Err(GridError::UnsupportedPrecision)
        );
    }
    for p in [1, 10, 100, 1_000, 2_000, 10_000, 100_000] {
        assert_eq!(parse_precision(p).unwrap().metres() as i32, p);
    }
}

#[test]
fn coordinates_out_of_extent_are_refused() {
    assert_eq!(
        osgb_from_eastings_northings(1_500_000, 0, 1),
        Err(GridError::OutOfRange)
    );
    assert_eq!(
        osgb_from_eastings_northings(0, 2_000_000, 1),
        Err(GridError::OutOfRange)
    );
    assert_eq!(
        osgb_from_eastings_northings(-1, 0, 1),
        Err(GridError::OutOfRange)
    );
    assert_eq!(
        osi_from_eastings_northings(500_000, 0, 1),
        Err(GridError::OutOfRange)
    );
    assert!(osgb_from_eastings_northings(1_499_999, 1_999_999, 1).is_ok());
    assert!(osi_from_eastings_northings(499_999, 499_999, 1).is_ok());
}

#[test]
fn construction_truncates_to_the_precision() {
    let g = osgb_from_eastings_northings(389_250, 243_709, 100).unwrap();
    assert_eq!(g.0.eastings(), 389_200);
    assert_eq!(g.0.northings(), 243_700);
    assert_eq!(g.to_text(), "SO892437");
}

#[test]
fn malformed_strings_are_refused() {
    for s in [
        "", " ", "1234", "SO89243", "SO8924377", "S0892437", "I12", "SO123456789012", "TL0438SE",
        "TL03O", "TL003P", "TL0438P", "SO-892-437",
    ] {
        assert_eq!(
            osgb_from_string(s),
            Err(GridError::InvalidReference),
            "{}",
            s
        );
    }
    // a first letter whose 500 km square lies off the covered grid
    assert_eq!(osgb_from_string("VV12"), Err(GridError::OutOfRange));
    assert_eq!(osgb_from_string("AA12"), Err(GridError::OutOfRange));
}

#[test]
fn gridish_osgb_print_vectors() {
    let cases = [
        (Precision::Km100, "TL"),
        (Precision::Km10, "TL03"),
        (Precision::Km2, "TL03P"),
        (Precision::Km1, "TL0438"),
        (Precision::M100, "TL048380"),
        (Precision::M10, "TL04863802"),
        (Precision::M1, "TL0486638023"),
    ];
    for (p, s) in cases {
        let g = GridReference::from_coordinates(System::Osgb, 504_866, 238_023, p).unwrap();
        assert_eq!(g.to_text(), s);
    }
}

#[test]
fn gridish_osgb_parse_vectors() {
    let cases = [
        ("TL", (Precision::Km100, 500_000, 200_000)),
        ("TL03", (Precision::Km10, 500_000, 230_000)),
        ("TL03P", (Precision::Km2, 504_000, 238_000)),
        ("TL0438", (Precision::Km1, 504_000, 238_000)),
        ("TL048380", (Precision::M100, 504_800, 238_000)),
        ("TL04863802", (Precision::M10, 504_860, 238_020)),
        ("TL0486638023", (Precision::M1, 504_866, 238_023)),
    ];
    for (s, (p, e, n)) in cases {
        let g = GridReference::parse(s, System::Osgb).unwrap();
        assert_eq!(g.precision(), p, "{}", s);
        assert_eq!(g.eastings(), e, "{}", s);
        assert_eq!(g.northings(), n, "{}", s);
    }
}

#[test]
fn tetrad_parsing_matches_the_dinty_grid() {
    let g = GridReference::parse("SN24R", System::Osgb).unwrap();
    assert_eq!(g.eastings(), 226_000);
    assert_eq!(g.northings(), 242_000);
    assert_eq!(g.precision(), Precision::Km2);
    assert_eq!(g.to_text(), "SN24R");
}

#[test]
fn parsing_normalises_case_and_outer_whitespace() {
    let canonical = osgb_from_string("SO892437").unwrap();
    for s in [
        "so892437",
        "So892437",
        " SO892437",
        "SO892437\n",
        "\tso892437 ",
        "SO 892 437",
        "SO 892437",
    ] {
        assert_eq!(osgb_from_string(s).unwrap(), canonical, "{}", s);
    }
    assert_eq!(
        osgb_from_string("tl03p").unwrap().to_text(),
        "TL03P"
    );
}

#[test]
fn round_trip_concrete_strings() {
    for s in [
        "SO892437", "TL", "TL03", "TL03P", "TL0438", "TL048380", "TL04863802", "TL0486638023",
        "SV0000000000", "EE9999999999", "SN24R",
    ] {
        let g = osgb_from_string(s).unwrap();
        assert_eq!(g.to_text(), s, "{}", s);
        assert_eq!(osgb_from_string(&g.to_text()).unwrap(), g, "{}", s);
    }
    for s in ["O892437", "A", "Z9999999999", "B12G"] {
        let g = osi_from_string(s).unwrap();
        assert_eq!(g.to_text(), s, "{}", s);
        assert_eq!(osi_from_string(&g.to_text()).unwrap(), g, "{}", s);
    }
}

#[test]
fn recalculate_identity_on_own_precision() {
    for s in ["SO892437", "TL03P", "TL0486638023"] {
        let g = osgb_from_string(s).unwrap();
        let p = osgb_precision(g);
        assert_eq!(osgb_recalculate(g, p).unwrap(), g, "{}", s);
    }
}

#[test]
fn recalculate_coarsens_by_truncation() {
    let g = osgb_from_string("TL0486638023").unwrap();
    assert_eq!(osgb_recalculate(g, 2_000).unwrap().to_text(), "TL03P");
    assert_eq!(osgb_recalculate(g, 10_000).unwrap().to_text(), "TL03");
    assert_eq!(osgb_recalculate(g, 100_000).unwrap().to_text(), "TL");
    assert_eq!(
        osgb_recalculate(g, 7),
        Err(GridError::UnsupportedPrecision)
    );
}

#[test]
fn recalculate_composes_when_boundaries_align() {
    for s in ["TL0486638023", "SO892437", "O892437"] {
        let steps = [1, 10, 100, 1_000, 2_000, 10_000, 100_000];
        for (ai, a) in steps.iter().enumerate() {
            for b in steps.iter().skip(ai) {
                if osgb_is_valid(s) {
                    let g = osgb_from_string(s).unwrap();
                    let two = osgb_recalculate(osgb_recalculate(g, *a).unwrap(), *b).unwrap();
                    let one = osgb_recalculate(g, *b).unwrap();
                    assert_eq!(two, one, "{} {} {}", s, a, b);
                }
            }
        }
    }
}

#[test]
fn is_valid_agrees_with_parse() {
    for s in [
        "SO892437", "SO89243", "", "TL03P", "TL03Q", "VV12", "so892437", " TL ", "TL 03",
    ] {
        assert_eq!(osgb_is_valid(s), osgb_from_string(s).is_ok(), "{}", s);
    }
}

#[test]
fn finer_recalculation_leaves_the_reference_unchanged() {
    let g = osgb_from_string("SO8943").unwrap();
    let finer = osgb_recalculate(g, 10).unwrap();
    assert_eq!(finer, g);
    assert_eq!(osgb_precision(finer), 1_000);
}

#[test]
fn osgb_value_type_is_plain_data() {
    let a = osgb_from_string("SO892437").unwrap();
    let b = OSGB(a.0);
    assert_eq!(a, b);
    assert_eq!(a.0.system(), System::Osgb);
}
