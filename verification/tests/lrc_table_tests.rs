use vitune_core::lrc::{classify_line, parse, LrcLine};

fn lyric(timestamp: u64, line: &str) -> LrcLine {
    LrcLine::Lyric {
        timestamp,
        line: line.to_string(),
    }
}

fn meta(key: &str, value: &str) -> LrcLine {
    LrcLine::Metadata {
        key: key.to_string(),
        value: value.to_string(),
    }
}

fn table() -> Vec<(&'static str, LrcLine)> {
    vec![
        ("[00:01.12]Line", lyric(1120, "Line")),
        ("[12:34.567] x", lyric(754567, "x")),
        ("[ti:Title]", meta("ti", "Title")),
        ("[a:b]", meta("a", "b")),
        ("[00:01.1]x", LrcLine::Invalid),
        ("[0:01.12]x", LrcLine::Invalid),
        ("[000:59.99]", lyric(59990, "")),
        ("[ar: A : B ]", meta("ar", "A : B")),
        ("[:]", LrcLine::Invalid),
        ("[::]", meta(":", "")),
        ("[a:]", meta("a", "")),
        ("[:a]", LrcLine::Invalid),
        ("[01:02.03", LrcLine::Invalid),
        ("01:02.03]", LrcLine::Invalid),
        ("[01:02.034]]", lyric(62034, "]")),
        ("[01.02:03]", meta("01.02", "03")),
        ("[\u{661}\u{662}:01.12]x", LrcLine::Invalid),
        ("[01:0\u{663}.12]x", LrcLine::Invalid),
        ("[99:99.999]end", lyric(6039999, "end")),
        ("[00:00.00][00:01.00]", lyric(0, "[00:01.00]")),
        ("[x:[y]]", meta("x", "[y]")),
        ("[ 1:2 ]", meta("1", "2")),
        ("[00:01,12]x", LrcLine::Invalid),
        ("[00:01.12 ]x", LrcLine::Invalid),
        ("[[ti:x]", meta("[ti", "x")),
        ("[ti:x]]", meta("ti", "x]")),
        ("[00:1.123]", meta("00", "1.123")),
        ("[12434.567 x", LrcLine::Invalid),
        ("[001.1.3]", LrcLine::Invalid),
        ("7[01:]0\u{663}.12]\u{661}", LrcLine::Invalid),
        ("05:1.12]Line", LrcLine::Invalid),
        ("[.t:Ti[tle]", meta(".t", "Ti[tle")),
        (":]", LrcLine::Invalid),
        (":[12:a4.57] x", LrcLine::Invalid),
        ("[99:]99.999]end", LrcLine::Invalid),
        ("[01:026.03", LrcLine::Invalid),
        ("[\u{661}\u{662}:0112]x", LrcLine::Invalid),
        ("[b00:00.00][00:1.00]", meta("b00", "00.00][00:1.00")),
        ("[0 1:02.034]]", meta("0 1", "02.034]")),
        ("[0.02013]", LrcLine::Invalid),
        ("[[[ti:x]", meta("[[ti", "x")),
        ("[0 0:1.123]", meta("0 0", "1.123")),
        ("[01:02..03 3]]", meta("01", "02..03 3]")),
        ("[00:0112]Line", LrcLine::Invalid),
        ("[t:x4]]", meta("t", "x4]")),
        ("[ :]", meta("", "")),
        (".[:3]", LrcLine::Invalid),
        ("[ar: 0 : B6 ]", meta("ar", "0 : B6")),
        ("[00:01.1[]Line", LrcLine::Invalid),
        ("[[ti]", LrcLine::Invalid),
        ("\u{661}:\u{662}:01.12]x", LrcLine::Invalid),
        ("[12:3.58] x", LrcLine::Invalid),
        ("[041:0\u{663}.12x", LrcLine::Invalid),
        ("[18446744073709551615800.00]x", LrcLine::Invalid),
        ("[ti:x]:5]", meta("ti", "x]:5")),
        ("[:4]", LrcLine::Invalid),
        ("[[t:x]7", LrcLine::Invalid),
        ("[:\u{661}:6b]", meta(":\u{661}", "6b")),
        ("[00:01.]x", LrcLine::Invalid),
        ("[ 1\u{661}: ]", meta("1\u{661}", "")),
        ("[tix5]", LrcLine::Invalid),
        ("01302.0]", LrcLine::Invalid),
        ("01:08.03\u{661}]", LrcLine::Invalid),
        ("[ 1:2 .", LrcLine::Invalid),
        ("[0:\u{661}01.712]x", LrcLine::Invalid),
        (":", LrcLine::Invalid),
        ("[2:a]", meta("2", "a")),
        ("[[t8i:x]", meta("[t8i", "x")),
        ("[ 1:2", LrcLine::Invalid),
        ("[0:01.\u{661}2 ]x", LrcLine::Invalid),
        ("3[r7 A : B ]", LrcLine::Invalid),
        ("[010\u{663}.12]x", LrcLine::Invalid),
        ("[0[ti:x", LrcLine::Invalid),
        ("[00:11,12]x", LrcLine::Invalid),
        ("] 1:[]", LrcLine::Invalid),
        ("[\u{661}\u{662}:018.12]x", LrcLine::Invalid),
        ("[\u{661}\u{662}:01.1b2]x", LrcLine::Invalid),
        ("[ti:x]", meta("ti", "x")),
        ("7 :]", LrcLine::Invalid),
        ("[ :2 ]", meta("", "2")),
        ("[tix]", LrcLine::Invalid),
        ("[00:01.1]ax", LrcLine::Invalid),
        ("[01:02034]]", meta("01", "02034]")),
        ("[a:ba]", meta("a", "ba")),
        ("[00:0.1]8x", LrcLine::Invalid),
        ("[x:[y47]", meta("x", "[y47")),
        ("[a:]7", LrcLine::Invalid),
        ("[02:a01.12]x", LrcLine::Invalid),
        ("[a: b]", meta("a", "b")),
        ("[:b]", LrcLine::Invalid),
        ("\u{661}[03:01.12]x", LrcLine::Invalid),
        ("[ 9:2]", meta("9", "2")),
        ("[x[8y]]", LrcLine::Invalid),
        ("[ 1:2 ]3", LrcLine::Invalid),
        ("[00:01.9812 ]x", LrcLine::Invalid),
        ("[[ti:x]]", meta("[ti", "x]")),
        ("[ti:Tte0]", meta("ti", "Tte0")),
        ("[000:59.9279]", meta("000", "59.9279")),
        ("][1844674407370955161500.00]x", LrcLine::Invalid),
        ("[99:990999]end", LrcLine::Invalid),
        ("[a]", LrcLine::Invalid),
        ("[99:6999]end", LrcLine::Invalid),
        ("6[\u{661}8\u{662}:1.12]x", LrcLine::Invalid),
        ("0[01:0\u{663}.12]x", LrcLine::Invalid),
        ("[00.:01.13", LrcLine::Invalid),
        ("[[i:x]", meta("[i", "x")),
        ("[99:99.999]e[nd", lyric(6039999, "e[nd")),
        ("a]", LrcLine::Invalid),
        ("[010[2.034]]", LrcLine::Invalid),
        ("[i:x2]", meta("i", "x2")),
        ("[:", LrcLine::Invalid),
        ("[99:9.999end", LrcLine::Invalid),
        ("[00:1.123][", LrcLine::Invalid),
        ("[01.08:6035]", meta("01.08", "6035")),
        ("[00:1.123]2", LrcLine::Invalid),
        ("[ti7]", LrcLine::Invalid),
        ("[01:09 .034]]", meta("01", "09 .034]")),
        ("[00:31.212]Lie", lyric(31212, "Lie")),
        ("[[ti :x]", meta("[ti", "x")),
        ("[b1:0\u{663}.12]x", LrcLine::Invalid),
        ("[ti:]Title]", meta("ti", "]Title")),
        ("[9:939.999]end", LrcLine::Invalid),
        ("[001.12]", LrcLine::Invalid),
        ("[01.02:03", LrcLine::Invalid),
        ("[ 18:2 ]", meta("18", "2")),
        (".[01:0\u{663}.12]x", LrcLine::Invalid),
        ("3[\u{661}\u{662}:01.17]x", LrcLine::Invalid),
        ("[ar:6A :9B ]", meta("ar", "6A :9B")),
        ("[1844674407\u{661}93709551615:00.00]5", LrcLine::Invalid),
        ("[00:1..123]", meta("00", "1..123")),
        ("ti:T.te]", LrcLine::Invalid),
        ("[18446744073709751615::00.00]x", LrcLine::Invalid),
        ("[12:34.5b670] x", LrcLine::Invalid),
        ("[00:00.017][00:01.00]", lyric(17, "[00:01.00]")),
        ("a:]", LrcLine::Invalid),
        ("[[a[:b]", meta("[a[", "b")),
        ("6\u{661}\u{662}:21.12]2x", LrcLine::Invalid),
        ("[:8:]", meta(":8", "")),
        ("[01:02.0603", LrcLine::Invalid),
        ("[01.02]b]", LrcLine::Invalid),
        ("[::b2", LrcLine::Invalid),
        ("[a6]", LrcLine::Invalid),
        ("[01:02a20", LrcLine::Invalid),
        (":a]", LrcLine::Invalid),
        ("[00:00.00]8[00:01b.00]", lyric(0, "8[00:01b.00]")),
        ("[ti:x2]", meta("ti", "x2")),
        ("18446744073709551615:00.00]x", LrcLine::Invalid),
        ("[0:60.12]x", LrcLine::Invalid),
        ("[01:02.063", LrcLine::Invalid),
        ("[1:]34.567]", meta("1", "]34.567")),
    ]
}

#[test]
fn classification_table() {
    for (line, expected) in table() {
        let chars: Vec<char> = line.chars().collect();
        assert_eq!(classify_line(&chars), expected, "line {:?}", line);
    }
}

#[test]
fn parsing_the_table_as_one_text() {
    let rows = table();
    let text: Vec<&str> = rows.iter().map(|r| r.0).collect();
    let expected: Vec<LrcLine> = rows.into_iter().map(|r| r.1).collect();
    assert_eq!(parse(&text.join("\r\n")), Some(expected.clone()));
    assert_eq!(parse(&format!("\n  {} \n\n", text.join("  \n\t"))), Some(expected));
}
