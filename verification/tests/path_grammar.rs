use deltalake_hdfs::path::LogicalPath;

/// The pieces of `text` between its delimiters, read from left to right.
fn pieces(text: &[char]) -> Vec<Vec<char>> {
    let mut found = vec![Vec::new()];
    for &c in text {
        if c == '/' {
            found.push(Vec::new());
        } else {
            found.last_mut().unwrap().push(c);
        }
    }
    found
}

fn valid(segment: &[char]) -> bool {
    !segment.is_empty()
        && segment != ['.']
        && segment != ['.', '.']
        && segment.iter().all(|&c| c != '/' && (c as u32) >= 0x20 && (c as u32) != 0x7f)
}

/// The segments that the grammar of logical paths gives for `text`.
fn expected(text: &[char]) -> Option<Vec<String>> {
    let head = if text.first() == Some(&'/') { &text[1..] } else { text };
    if head.is_empty() {
        return Some(Vec::new());
    }
    let body = if head.last() == Some(&'/') { &head[..head.len() - 1] } else { head };
    let found = pieces(body);
    if found.iter().all(|segment| valid(segment)) {
        Some(found.iter().map(|segment| segment.iter().collect()).collect())
    } else {
        None
    }
}

fn texts(alphabet: &[char], longest: usize) -> Vec<Vec<char>> {
    let mut all = vec![Vec::new()];
    let mut last = vec![Vec::new()];
    for _ in 0..longest {
        let mut next = Vec::new();
        for text in &last {
            for &c in alphabet {
                let mut longer: Vec<char> = text.clone();
                longer.push(c);
                next.push(longer);
            }
        }
        all.extend(next.iter().cloned());
        last = next;
    }
    all
}

#[test]
fn every_short_text_is_read_as_the_grammar_says() {
    let alphabet = ['a', '/', '.', '\u{1f}', '\u{e9}', ' '];
    let all = texts(&alphabet, 6);
    assert_eq!(all.len(), 55_987);
    for text in all {
        let written: String = text.iter().collect();
        let read = LogicalPath::parse(&written).ok().map(|path| path.segments().clone());
        assert_eq!(read, expected(&text), "for {written:?}");
    }
}

#[test]
fn the_bounds_of_the_control_characters_are_exact() {
    for code in 0u32..0x100 {
        let c = char::from_u32(code).unwrap();
        if c == '/' || c == '.' {
            continue;
        }
        let written: String = ['a', c].iter().collect();
        let refused = code < 0x20 || code == 0x7f;
        assert_eq!(LogicalPath::parse(&written).is_err(), refused, "for {code:#x}");
    }
}

#[test]
fn the_text_of_every_short_path_reads_back() {
    let alphabet = ['a', '/', '.', '%'];
    for text in texts(&alphabet, 6) {
        let written: String = text.iter().collect();
        if let Ok(path) = LogicalPath::parse(&written) {
            let again = LogicalPath::parse(&path.to_text()).unwrap();
            assert!(again.equals(&path), "for {written:?}");
            assert!(!again.precedes(&path) && !path.precedes(&again));
        }
    }
}

#[test]
fn a_trailing_delimiter_changes_no_short_path() {
    let alphabet = ['a', '/', '.', 'b'];
    for text in texts(&alphabet, 6) {
        let written: String = text.iter().collect();
        if !written.ends_with('/') {
            continue;
        }
        if let Ok(with) = LogicalPath::parse(&written) {
            let without = LogicalPath::parse(&written[..written.len() - 1]).unwrap();
            assert!(with.equals(&without), "for {written:?}");
        }
    }
}
