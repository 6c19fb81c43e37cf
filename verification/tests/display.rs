use haut_network_guard::display::{
    char_is_space, format_duration, push_decimal, simplify_release_notes, size_unit, SizeUnit,
};

fn reference_notes(notes: &str) -> String {
    let mut result = notes.to_string();
    result = result.replace("### ", "\u{25b8} ");
    result = result.replace("## ", "\u{25a0} ");
    result = result.replace("# ", "\u{25cf} ");
    result = result.replace("- ", "  \u{2022} ");
    result.trim().to_string()
}

#[test]
fn duration_exact() {
    assert_eq!(format_duration(0), "0\u{5c0f}\u{65f6}0\u{5206}0\u{79d2}");
    assert_eq!(format_duration(59), "0\u{5c0f}\u{65f6}0\u{5206}59\u{79d2}");
    assert_eq!(format_duration(60), "0\u{5c0f}\u{65f6}1\u{5206}0\u{79d2}");
    assert_eq!(format_duration(3661), "1\u{5c0f}\u{65f6}1\u{5206}1\u{79d2}");
    assert_eq!(format_duration(86399), "23\u{5c0f}\u{65f6}59\u{5206}59\u{79d2}");
    assert_eq!(format_duration(360000), "100\u{5c0f}\u{65f6}0\u{5206}0\u{79d2}");
    assert_eq!(
        format_duration(u64::MAX),
        "5124095576030431\u{5c0f}\u{65f6}0\u{5206}15\u{79d2}"
    );
}

#[test]
fn decimal_is_appended() {
    for n in [0u64, 7, 10, 99, 100, 1234567890, u64::MAX] {
        let mut out = String::from("n=");
        push_decimal(&mut out, n);
        assert_eq!(out, format!("n={}", n));
    }
}

#[test]
fn notes_exact() {
    assert_eq!(
        simplify_release_notes("## Changes\n- fixed login\n- faster probe\n"),
        "\u{25a0} Changes\n  \u{2022} fixed login\n  \u{2022} faster probe"
    );
    assert_eq!(simplify_release_notes("### Small"), "\u{25b8} Small");
    assert_eq!(simplify_release_notes("# Top"), "\u{25cf} Top");
    assert_eq!(simplify_release_notes("#### Deep"), "#\u{25b8} Deep");
    assert_eq!(simplify_release_notes(""), "");
    assert_eq!(simplify_release_notes(" \t\n"), "");
    assert_eq!(simplify_release_notes("- "), "\u{2022}");
    assert_eq!(simplify_release_notes("\u{3000}a b\u{a0}"), "a b");
}

#[test]
fn notes_agree_with_the_standard_functions() {
    let samples = ["", " ", "#", "# ", "## ", "### ", "#### ", "##", "- - -", "--  ", "a-b - c",
        "#\n## x\n### y\n#### z\n- w", "  lead and trail \r\n", "\u{2028}x\u{205f}", "x # y ## z",
        "### ### ", "#- #- ", "\u{25b8} - ", "no markup at all", "-", "- ", " -", "\u{85}- \u{85}",
        "## \u{4e2d}\u{6587}\n- \u{9879}\u{76ee}"];
    for notes in samples {
        assert_eq!(simplify_release_notes(notes), reference_notes(notes));
    }
}

#[test]
fn white_space_is_what_the_standard_library_calls_so() {
    for code in 0u32..=0x10ffff {
        if let Some(c) = char::from_u32(code) {
            assert_eq!(char_is_space(c), c.is_whitespace());
        }
    }
}

#[test]
fn size_units() {
    assert_eq!(size_unit(0), SizeUnit::Bytes);
    assert_eq!(size_unit(1023), SizeUnit::Bytes);
    assert_eq!(size_unit(1024), SizeUnit::Kilobytes);
    assert_eq!(size_unit(1024 * 1024 - 1), SizeUnit::Kilobytes);
    assert_eq!(size_unit(1024 * 1024), SizeUnit::Megabytes);
    assert_eq!(size_unit(1024 * 1024 * 1024 - 1), SizeUnit::Megabytes);
    assert_eq!(size_unit(1024 * 1024 * 1024), SizeUnit::Gigabytes);
    assert_eq!(size_unit(u64::MAX), SizeUnit::Gigabytes);
    assert_eq!(SizeUnit::Bytes.divisor(), 1);
    assert_eq!(SizeUnit::Kilobytes.divisor(), 1024);
    assert_eq!(SizeUnit::Megabytes.divisor(), 1024 * 1024);
    assert_eq!(SizeUnit::Gigabytes.divisor(), 1024 * 1024 * 1024);
    assert_eq!(SizeUnit::Bytes.label(), "B");
    assert_eq!(SizeUnit::Kilobytes.label(), "KB");
    assert_eq!(SizeUnit::Megabytes.label(), "MB");
    assert_eq!(SizeUnit::Gigabytes.label(), "GB");
}
