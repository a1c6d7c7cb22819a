use vitune_core::header::Lyrics;

fn table() -> Vec<(&'static str, &'static str)> {
    vec![
        ("", ""),
        ("[ti:a]", ""),
        ("[ti:a]\nx", ""),
        ("x\n[ti:a]\ny\nz", "y\nz"),
        ("[ti:a]\r\r\nxy\nz", "\nxy\nz"),
        ("\n\n[ti:a]\n\n\n[ar:b]\nx\ny", "\n\n[ar:b]\nx\ny"),
        ("\u{6b4c}\r\r\n[ti:a]\nb\nc", "\nb\nc"),
        ("[ti:a]\n\u{6b4c}\r\r\n\u{e9}\nb\nc", "\u{6b4c}\r\n\u{e9}\nb\nc"),
        ("[00:00.0]Producer\u{ff1a}X\nLine 1\nLine 2", "Line 1\nLine 2"),
        ("[qq:1]\n[id:$00]\r\r\n\u{e9}\u{e9}\u{e9}\u{e9}xProducer\u{ff1a}Y\n\n[offset:0]\r\r\n[00:00.3]Producer\u{ff1a}D\nplain \u{e9}\n[00:03.00]&apos;&apos;", "D\nplain \u{e9}\n[00:03.00]''"),
        ("  \n\u{e9}\u{e9}\u{e9}\u{6b4c}Producer\u{ff1a}Z\r\n[00:00.2]Composed by\u{ff1a}C", ""),
        ("\u{e9}\u{e9}\u{e9}\u{e9}xProducer\u{ff1a}Y\n[00:00.1]Lyrics by\u{ff1a}B", ""),
        ("  \n\u{e9}\u{e9}\u{e9}\u{6b4c}Producer\u{ff1a}Z\n\n[sign:s]\n[00:00.00]Written by\u{ff1a}late\n\n\r", ""),
        ("[by:y]\n[hash:abc]\r\n[id:$00]\n[00:02.00]don&apos;t\r\r\n\r\r\n[offset:0]\r\r\n[TI:upper]\r\n", "[00:02.00]don't\r\n\r\n[offset:0]\r\n[TI:upper]"),
        ("[00:03.00]&apos;&apos;\r\n\u{e9}\u{e9}\u{e9}\u{e9}xProducer\u{ff1a}Y\n\u{e9}\u{e9}\u{e9}\u{e9}xProducer\u{ff1a}Y\n\n123456789Producer\u{ff1a}G\n[by:y]\r\n  ", ""),
        ("[00:00.3]Producer\u{ff1a}D", ""),
        ("[hash:abc]\n[00:01.00]one\n\n[00:00.1]Lyrics by\u{ff1a}B\nx[ti:y]\r\n\n[by:y]", "[00:01.00]one\n\n[00:00.1]Lyrics by\u{ff1a}B\nx[ti:y]\n\n[by:y]"),
        ("plain \u{e9}\n[qq:1]\r\n[sign:s]\n[ti:\u{6b4c}]\n[00:00.4]\u{4f5c}\u{66f2} : E\r\r\n[00:00.3]Producer\u{ff1a}D\n[al:x]\r\n", ""),
        ("[00:00.2]Composed by\u{ff1a}C\r\n[hash:abc]\n[hash:abc]\n\n[qq:1]\n\n[00:00.3]Producer\u{ff1a}D", ""),
        ("[al:x]\n", ""),
        ("\r\n[00:03.00]&apos;&apos;", ""),
        ("plain \u{e9}\n\r\n[00:00.5]\u{4f5c}\u{8bcd} : F\n[al:x]\r\nplain \u{e9}\n\u{e9}\u{e9}\u{e9}\u{e9}xProducer\u{ff1a}Y\r\n[ti:\u{6b4c}]", "plain \u{e9}\n\n[00:00.5]\u{4f5c}\u{8bcd} : F\n[al:x]\nplain \u{e9}\n\u{e9}\u{e9}\u{e9}\u{e9}xProducer\u{ff1a}Y\n[ti:\u{6b4c}]"),
        ("[total:100]\r\n[ti:\u{6b4c}]\r\n[al:x]\r\nx[ti:y]\n", ""),
        ("  \n[ar:Someone]\r\n[00:01.00]one\n[00:00.1]Lyrics by\u{ff1a}B\n[00:00.5]\u{4f5c}\u{8bcd} : F\n  \n[00:00.3]Producer\u{ff1a}D\n[00:00.5]\u{4f5c}\u{8bcd} : F", ""),
        ("\r\r\r\nplain \u{e9}\r\n", ""),
        ("[00:00.0]Written by\u{ff1a}A\r\n[00:00.4]\u{4f5c}\u{66f2} : E\r\n[00:00.0]Written by\u{ff1a}A\n[hash:abc]\n[00:00.1]Lyrics by\u{ff1a}B\r\r\n[hash:abc]\r\r\n[al:x]", "]"),
        ("[ar:Someone]\nplain \u{e9}\r\n[00:00.5]\u{4f5c}\u{8bcd} : F\r\n\r\r\n", ""),
        ("[00:01.00]one\r\n[00:02.00]don&apos;t\r\n[00:00.3]Producer\u{ff1a}D\r\n\u{e9}\u{e9}\u{e9}\u{e9}xProducer\u{ff1a}Y\n", "[00:01.00]one\n[00:02.00]don't\n[00:00.3]Producer\u{ff1a}D\n\u{e9}\u{e9}\u{e9}\u{e9}xProducer\u{ff1a}Y"),
        ("\r\n\n[00:00.0]Written by\u{ff1a}A\n\n\r\n123456789Producer\u{ff1a}G\r\n", "\n\n123456789Producer\u{ff1a}G"),
        ("\u{e9}\u{e9}\u{e9}\u{6b4c}Producer\u{ff1a}Z\n  \r\r\n[00:00.4]\u{4f5c}\u{66f2} : E\r\n[total:100]", ""),
        ("  \r\n[sign:s]\n\r\n[id:$00]\n\n[00:02.00]don&apos;t\r\r\n[id:$00]", "\n[00:02.00]don't\r\n[id:$00]"),
        ("\r\r\n[00:02.00]don&apos;t\n[ar:Someone]\r\n[TI:upper]\n\nplain \u{e9}\n\n", "[TI:upper]\n\nplain \u{e9}"),
        ("[total:100]\r\n[00:00.1]Lyrics by\u{ff1a}B\n[hash:abc]\r\r\n\u{e9}\u{e9}\u{e9}\u{e9}xProducer\u{ff1a}Y\r\r\n[00:00.00]Written by\u{ff1a}late", "e"),
        ("  \n[hash:abc]\n\n123456789Producer\u{ff1a}G\r\n[ar:Someone]\n[00:00.4]\u{4f5c}\u{66f2} : E\n[by:y]\n", ""),
        ("\r\r\n[qq:1]\r\n[qq:1]\r\n[00:00.0]Written by\u{ff1a}A\r\n123456789Producer\u{ff1a}G\n\r\r\n[00:00.5]\u{4f5c}\u{8bcd} : F", ""),
        ("123456789Producer\u{ff1a}G", ""),
        ("[00:00.2]Composed by\u{ff1a}C\n[offset:0]", ""),
        ("\n[00:00.5]\u{4f5c}\u{8bcd} : F\n\n", ""),
        ("[id:$00]\r\n[hash:abc]\n\n[00:00.3]Producer\u{ff1a}D", ""),
        ("  \n[00:00.00]Written by\u{ff1a}late\r\n[00:01.00]one\r\n[00:00.0]Written by\u{ff1a}A\n\nplain \u{e9}\r\r\n[hash:abc]", "[00:00.00]Written by\u{ff1a}late\n[00:01.00]one\n[00:00.0]Written by\u{ff1a}A\n\nplain \u{e9}\r\n[hash:abc]"),
        ("[00:01.00]one", ""),
        ("[00:03.00]&apos;&apos;\n\nplain \u{e9}\r\n", "[00:03.00]''\n\nplain \u{e9}"),
        ("[qq:1]\n[00:00.00]Written by\u{ff1a}late\n123456789Producer\u{ff1a}G\n[00:02.00]don&apos;t", ""),
        ("[00:00.4]\u{4f5c}\u{66f2} : E\r\n\u{e9}\u{e9}\u{e9}\u{6b4c}Producer\u{ff1a}Z\n[00:00.0]Written by\u{ff1a}A", ""),
        ("\u{e9}\u{e9}\u{e9}\u{6b4c}Producer\u{ff1a}Z\r\r\n\u{e9}\u{e9}\u{e9}\u{6b4c}Producer\u{ff1a}Z", ""),
        ("[ar:Someone]\n\r\n[00:00.00]Written by\u{ff1a}late\n[00:01.00]one\n\u{e9}\u{e9}\u{e9}\u{e9}xProducer\u{ff1a}Y\r\r\n[00:00.3]Producer\u{ff1a}D", "\n[00:00.00]Written by\u{ff1a}late\n[00:01.00]one\n\u{e9}\u{e9}\u{e9}\u{e9}xProducer\u{ff1a}Y\r\n[00:00.3]Producer\u{ff1a}D"),
        ("[00:00.0]Written by\u{ff1a}A\n123456789Producer\u{ff1a}G\n[sign:s]", ""),
        ("[ar:Someone]\n[00:00.3]Producer\u{ff1a}D\r\n\r\r\nplain \u{e9}\n\u{e9}\u{e9}\u{e9}\u{6b4c}Producer\u{ff1a}Z\r\n[qq:1]\n[00:00.4]\u{4f5c}\u{66f2} : E\r\n", "\r\nplain \u{e9}\n\u{e9}\u{e9}\u{e9}\u{6b4c}Producer\u{ff1a}Z\n[qq:1]\n[00:00.4]\u{4f5c}\u{66f2} : E"),
        ("[qq:1]\n\u{e9}\u{e9}\u{e9}\u{e9}xProducer\u{ff1a}Y", ""),
        ("[ar:Someone]\n[by:y]\r\n[sign:s]\n\r\n\u{e9}\u{e9}\u{e9}\u{e9}xProducer\u{ff1a}Y\r\r\n[al:x]", ""),
        ("\r\n[00:00.3]Producer\u{ff1a}D\r\n[00:03.00]&apos;&apos;\r\r\n[hash:abc]\r\n[sign:s]\n\u{e9}\u{e9}\u{e9}\u{e9}xProducer\u{ff1a}Y\r\n[sign:s]\r\n", ""),
        ("  \n[sign:s]\r\n\u{e9}\u{e9}\u{e9}\u{6b4c}Producer\u{ff1a}Z\r\r\n[00:03.00]&apos;&apos;\r\r\n[00:00.1]Lyrics by\u{ff1a}B\r\r\n[sign:s]\n\r\r\n[ti:\u{6b4c}]", ""),
        ("[qq:1]\n[offset:0]\n  \r\n[TI:upper]\r\n[00:00.4]\u{4f5c}\u{66f2} : E\r\n[total:100]", "  \n[TI:upper]\n[00:00.4]\u{4f5c}\u{66f2} : E\n[total:100]"),
        ("plain \u{e9}\n\n[offset:0]\n\n", "plain \u{e9}\n\n[offset:0]"),
        ("[offset:0]\r\n[ti:\u{6b4c}]\n\n[sign:s]", ""),
        ("123456789Producer\u{ff1a}G\r\r\n[00:01.00]one\n[00:00.4]\u{4f5c}\u{66f2} : E\n[qq:1]\r\r\n[hash:abc]\nplain \u{e9}\r\n[al:x]", "]"),
        ("[00:00.2]Composed by\u{ff1a}C\r\r\nplain \u{e9}\n[00:01.00]one\n[al:x]\n[00:00.4]\u{4f5c}\u{66f2} : E\n", "\nplain \u{e9}\n[00:01.00]one\n[al:x]\n[00:00.4]\u{4f5c}\u{66f2} : E"),
        ("[00:00.3]Producer\u{ff1a}D\r\r\n\r\n[00:00.5]\u{4f5c}\u{8bcd} : F\n\n\u{e9}\u{e9}\u{e9}\u{6b4c}Producer\u{ff1a}Z\r\n[00:00.3]Producer\u{ff1a}D\n[offset:0]\r\n[00:03.00]&apos;&apos;", ""),
        ("[00:01.00]one\n[00:00.5]\u{4f5c}\u{8bcd} : F\r\n[offset:0]\r\r\n[00:00.0]Written by\u{ff1a}A\r\r\n[offset:0]\n\n\r\n\n", "]"),
        ("\u{e9}\u{e9}\u{e9}\u{e9}xProducer\u{ff1a}Y\r\n[00:00.2]Composed by\u{ff1a}C\r\n[al:x]\n", ""),
        ("[ar:Someone]", ""),
        ("[TI:upper]\n[00:01.00]one\n[00:00.4]\u{4f5c}\u{66f2} : E", "[TI:upper]\n[00:01.00]one\n[00:00.4]\u{4f5c}\u{66f2} : E"),
        ("  \n[00:00.0]Written by\u{ff1a}A\n\n  \n[ar:Someone]\n[total:100]\n", "\n  \n[ar:Someone]\n[total:100]"),
        ("[total:100]\r\r\n123456789Producer\u{ff1a}G\n\n[00:00.5]\u{4f5c}\u{8bcd} : F", ""),
        ("  \n[00:00.4]\u{4f5c}\u{66f2} : E\r\n[00:00.00]Written by\u{ff1a}late\r\n[00:03.00]&apos;&apos;\r\r\n", "[00:00.00]Written by\u{ff1a}late\n[00:03.00]''"),
        ("  \n[id:$00]\n\n123456789Producer\u{ff1a}G\n[total:100]\r\n[00:01.00]one\r\n[00:00.5]\u{4f5c}\u{8bcd} : F\r\n[id:$00]", ""),
        ("\u{e9}\u{e9}\u{e9}\u{6b4c}Producer\u{ff1a}Z\r\n[sign:s]\n[id:$00]\r\r\n", ""),
        ("[00:00.00]Written by\u{ff1a}late\r\r\n", ""),
        ("[00:00.00]Written by\u{ff1a}late\r\r\n[00:02.00]don&apos;t\n[id:$00]", "[00:00.00]Written by\u{ff1a}late\r\n[00:02.00]don't\n[id:$00]"),
        ("plain \u{e9}\r\n[al:x]\r\n[00:01.00]one\r\r\nplain \u{e9}\n[00:00.1]Lyrics by\u{ff1a}B\r\n  \r\n[qq:1]\r\r\n", "[00:01.00]one\r\nplain \u{e9}\n[00:00.1]Lyrics by\u{ff1a}B\n  \n[qq:1]"),
        ("[00:03.00]&apos;&apos;\r\r\n\u{e9}\u{e9}\u{e9}\u{e9}xProducer\u{ff1a}Y", ""),
        ("  \n[id:$00]\r\r\n[00:00.5]\u{4f5c}\u{8bcd} : F\nx[ti:y]\n[00:02.00]don&apos;t\r\n[qq:1]\n[TI:upper]", "\nx[ti:y]\n[00:02.00]don't\n[qq:1]\n[TI:upper]"),
        ("x[ti:y]\r\r\n[00:01.00]one\n[ar:Someone]\n[00:00.4]\u{4f5c}\u{66f2} : E\r\r\n[00:00.00]Written by\u{ff1a}late", "x[ti:y]\r\n[00:01.00]one\n[ar:Someone]\n[00:00.4]\u{4f5c}\u{66f2} : E\r\n[00:00.00]Written by\u{ff1a}late"),
        ("  \n\n\n[00:00.0]Written by\u{ff1a}A", ""),
        ("\r\n[00:03.00]&apos;&apos;\n[al:x]\n[00:02.00]don&apos;t\nplain \u{e9}\n\n[00:02.00]don&apos;t", "[00:02.00]don't\nplain \u{e9}\n\n[00:02.00]don't"),
        ("[00:00.2]Composed by\u{ff1a}C\r\n[id:$00]\r\n\u{e9}\u{e9}\u{e9}\u{e9}xProducer\u{ff1a}Y\n", ""),
        ("[00:00.1]Lyrics by\u{ff1a}B\nplain \u{e9}\n[00:00.3]Producer\u{ff1a}D\n[00:00.0]Written by\u{ff1a}A\r\n[hash:abc]\r\n\u{e9}\u{e9}\u{e9}\u{6b4c}Producer\u{ff1a}Z\n", ""),
        ("[00:00.2]Composed by\u{ff1a}C\r\n[00:00.4]\u{4f5c}\u{66f2} : E\r\r\n[hash:abc]\n[TI:upper]\n[by:y]\n123456789Producer\u{ff1a}G\n[00:03.00]&apos;&apos;", ""),
        ("[00:00.3]Producer\u{ff1a}D\r\n[00:00.4]\u{4f5c}\u{66f2} : E\r\r\n[00:00.1]Lyrics by\u{ff1a}B\nx[ti:y]\n\n[hash:abc]\r\nx[ti:y]\r\n", "\nx[ti:y]\n\n[hash:abc]\nx[ti:y]"),
        ("[by:y]\n[qq:1]\r\r\n  \r\n[00:00.00]Written by\u{ff1a}late\r\r\nplain \u{e9}\n", "\n  \n[00:00.00]Written by\u{ff1a}late\r\nplain \u{e9}"),
    ]
}

#[test]
fn normalization_table() {
    for (raw, expected) in table() {
        assert_eq!(Lyrics(raw.to_string()).normalize().0, expected, "text {:?}", raw);
    }
}
