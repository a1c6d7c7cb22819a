use vitune_core::keyword::keyword;

fn table() -> Vec<(&'static str, &'static str, &'static str)> {
    vec![
        ("&,  ", "", "&\u{3001}  - "),
        ("..E, F\u{e9}", "", "E\u{3001}F\u{e9} - "),
        ("B.", "(feat. Q) (feat. ", "B - (feat. Q) (feat. "),
        (" & & B.G,H", "Song", "\u{3001}& BG,H - Song"),
        (" & ", " (feat. Y, Z & W)", "\u{3001}\u{3001}Y\u{3001}Z\u{3001}W - "),
        ("C & D....", "", "C\u{3001}D - "),
        ("G,H", " (feat. Y, Z & W) (feat. Y, Z & W)Song", "G,H\u{3001}Y\u{3001}Z\u{3001}W -  (feat. Y, Z & W)Song"),
        ("", "", " - "),
        ("C & D", " (feat. )", "C\u{3001}D - "),
        ("E, F & & ", " (feat. Y, Z & W)", "E\u{3001}F\u{3001}& \u{3001}Y\u{3001}Z\u{3001}W - "),
        ("", " (feat. )Song)", " - Song)"),
        ("C & DC & D", " (feat. X))", "C\u{3001}DC\u{3001}D\u{3001}X - )"),
        (", &G,H", "", "\u{3001}&G,H - "),
        ("B., ", " (feat. )(feat. Q)", "B\u{3001} - (feat. Q)"),
        ("C & D && ", " (FEAT. no) (feat. Y, Z & W)Song", "C\u{3001}D && \u{3001}Y\u{3001}Z\u{3001}W -  (FEAT. no)Song"),
        ("A&", " (Live)Song", "A& -  (Live)Song"),
        (",   & G,H", "", "\u{3001} \u{3001}G,H - "),
        ("A&C & D", " (feat. X)", "A&C\u{3001}D\u{3001}X - "),
        ("", ") (feat. R.S.))", "\u{3001}RS - ))"),
        (".. && ", "", " &&  - "),
        (", &, ", "", "\u{3001}&\u{3001} - "),
        ("B.E, F,  ", " (feat. Y, Z & W))", "BE\u{3001}F\u{3001} \u{3001}Y\u{3001}Z\u{3001}W - )"),
        ("&", "", "& - "),
        ("\u{e9},  ", " (feat. Y, Z & W)", "\u{e9}\u{3001} \u{3001}Y\u{3001}Z\u{3001}W - "),
        ("", " (FEAT. no)", " -  (FEAT. no)"),
        (" && C & D", "", " && C\u{3001}D - "),
        ("", "Song (feat.  (FEAT. no)", "\u{3001} (FEAT no - Song"),
        (", &, ", ". (Live) (feat. Y, Z & W)", "\u{3001}&\u{3001}\u{3001}Y\u{3001}Z\u{3001}W - . (Live)"),
        (",  , &E, F", " (FEAT. no)", "\u{3001} \u{3001}&E\u{3001}F -  (FEAT. no)"),
        ("\u{e9}", " (feat. X) (feat. Y, Z & W) (Live)", "\u{e9}\u{3001}X -  (feat. Y, Z & W) (Live)"),
        ("C & DA", " (feat. ) (feat. Y, Z & W)(feat. Q)", "C\u{3001}DA -  (feat. Y, Z & W)(feat. Q)"),
        (" & & ", "(feat. Q) (FEAT. no) (FEAT. no)", "\u{3001}&  - (feat. Q) (FEAT. no) (FEAT. no)"),
        (" && , ", "(feat. Q) (Live)", " && \u{3001} - (feat. Q) (Live)"),
        ("B.", " (feat. R.S.) (feat. Y, Z & W).", "B\u{3001}RS -  (feat. Y, Z & W)."),
        (", &,  C & D", "", "\u{3001}&\u{3001} C\u{3001}D - "),
        (",  & & ..", " (feat. X)", "\u{3001}\u{3001}& \u{3001}X - "),
        ("&G,H", "", "&G,H - "),
        (",   & & ", "(feat. Q) (feat. )", "\u{3001} \u{3001}&  - (feat. Q)"),
        (",  \u{e9}", "\u{e9}", "\u{3001} \u{e9} - \u{e9}"),
        ("", " (feat. R.S.) (feat. )", "\u{3001}RS -  (feat. )"),
        ("\u{e9}, ", " (feat. ) (feat. R.S.).", "\u{e9}\u{3001} -  (feat. R.S.)."),
        (",  , ", " (FEAT. no) (Live)", "\u{3001} \u{3001} -  (FEAT. no) (Live)"),
        (", &", " (FEAT. no)", "\u{3001}& -  (FEAT. no)"),
        (",  ,   & & ", " (feat. R.S.)", "\u{3001} \u{3001} \u{3001}& \u{3001}RS - "),
        ("E, F", "(feat. Q) (feat. )", "E\u{3001}F - (feat. Q)"),
        ("", " (feat. Y, Z & W)\u{e9}", "\u{3001}Y\u{3001}Z\u{3001}W - \u{e9}"),
        (", G,H & & ", " (FEAT. no)Song", "\u{3001}G,H\u{3001}&  -  (FEAT. no)Song"),
        ("C & D", "\u{e9}. (feat. Y, Z & W)", "C\u{3001}D\u{3001}Y\u{3001}Z\u{3001}W - \u{e9}."),
        ("..", ".", " - ."),
        ("", " (feat.  (feat. Y, Z & W)Song", "\u{3001} (feat Y\u{3001}Z\u{3001}W - Song"),
        ("B.", " (feat. Y, Z & W)(feat. Q)", "B\u{3001}Y\u{3001}Z\u{3001}W - (feat. Q)"),
        (" & & ", "", "\u{3001}&  - "),
        (" && ,   & ", "", " && \u{3001} \u{3001} - "),
        ("E, F", "Song)", "E\u{3001}F - Song)"),
        (", , & & ", "", "\u{3001}\u{3001}&\u{3001} - "),
        ("A & & ", " (feat. X) (feat. )", "A\u{3001}& \u{3001}X -  (feat. )"),
        ("G,H, ", " (feat. Y, Z & W) (Live)", "G,H\u{3001}\u{3001}Y\u{3001}Z\u{3001}W -  (Live)"),
        (", &G,H\u{e9}", "(feat. Q) (feat. Y, Z & W)", "\u{3001}&G,H\u{e9}\u{3001}Y\u{3001}Z\u{3001}W - (feat. Q)"),
        ("G,H", "\u{e9}(feat. Q) (feat. ", "G,H - \u{e9}(feat. Q) (feat. "),
        ("G,H", "", "G,H - "),
    ]
}

#[test]
fn keyword_table() {
    for (artist, title, expected) in table() {
        assert_eq!(keyword(artist, title), expected, "artist {:?}, title {:?}", artist, title);
    }
}
