use electricity::streets::{
    extract_dataset, extract_element_text, extract_nullable_element_text, extract_record, Record,
    STREET_DATA_SELECTOR, STREET_ROW_SELECTOR,
};
use scraper::{ElementRef, Html, Selector};

fn text_nodes(e: ElementRef) -> Vec<String> {
    e.text().map(String::from).collect()
}

#[test]
fn test_table_selector() {
    let sel = Selector::parse(STREET_ROW_SELECTOR).unwrap();
    let tests = [
        (
            r#"<html>
            <table id="ulicebgdoutGrid">
                <thead>
                    <tr><td>wrong</td></tr>
                </thead>
                <tbody>
                    <tr><td>wrong</td></tr>
                    <tr class="pg-row"><td>data</td></tr>
                </tbody>
            </table>
        </html>"#,
            Some("data"),
        ),
        (
            r#"<html>
            <table id="ulicebgdoutGrid">
                <thead>
                    <tr><td>wrong</td></tr>
                </thead>
                <tbody>
                    <tr><td>wrong</td></tr>
                </tbody>
            </table>
        </html>"#,
            None,
        ),
    ];

    for (html, maybe_expected_value) in tests {
        let body = Html::parse_document(html);
        let maybe_data = body.select(&sel).next();
        if let Some(expected_value) = maybe_expected_value {
            let data = maybe_data.unwrap();
            let text = extract_element_text(&text_nodes(data));
            assert_eq!(text, expected_value);
        } else {
            assert!(maybe_data.is_none())
        }
    }
}

#[test]
fn test_extract_dataset() {
    let html = r#"<html><table id="ulicebgdoutGrid">
            <tbody>
            <tr class="pg-row">
                <td> 1 </td>
                <td> street_name1 </td>
                <td> old_street_name1 </td>
                <td> municipality1 </td>
                <td> settlement1 </td>
                <td> settlement_part1 </td>
                <td> si_list1 </td>
            </tr>
            <tr class="pg-row">
                <td> 2 </td>
                <td> street_name2 </td>
                <td> old_street_name2 </td>
                <td> municipality2 </td>
                <td> settlement2 </td>
                <td> settlement_part2 </td>
                <td> si_list2 </td>
            </tr>
            </tbody>
        </table></html>"#;
    let result = extract_dataset(html).unwrap();
    assert_eq!(
        result,
        vec![
            Record {
                street_name: "street_name1".to_string(),
                old_street_name: Some("old_street_name1".to_string()),
                municipality: "municipality1".to_string(),
                settlement: "settlement1".to_string(),
                settlement_part: "settlement_part1".to_string(),
                si_list: Some("si_list1".to_string()),
            },
            Record {
                street_name: "street_name2".to_string(),
                old_street_name: Some("old_street_name2".to_string()),
                municipality: "municipality2".to_string(),
                settlement: "settlement2".to_string(),
                settlement_part: "settlement_part2".to_string(),
                si_list: Some("si_list2".to_string()),
            }
        ]
    )
}

#[test]
fn test_extract_element() {
    let html = r"<table><tr><td> text </td></tr></table>";
    let fragment = Html::parse_fragment(html);
    let sel = Selector::parse("td").unwrap();
    let td = fragment.select(&sel).next().unwrap();

    assert_eq!(extract_element_text(&text_nodes(td)), "text");
}

#[test]
fn test_extract_nullable_element() {
    let sel = Selector::parse("td").unwrap();
    let tests = [
        (r"<table><tr><td>  </td></tr></table>", None),
        (r"<table><tr><td> NULL </td></tr></table>", None),
        (r"<table><tr><td> text </td></tr></table>", Some("text".to_string())),
    ];

    for (html, expected_value) in tests {
        let fragment = Html::parse_fragment(html);
        let td = fragment.select(&sel).next().unwrap();
        assert_eq!(extract_nullable_element_text(&text_nodes(td)), expected_value);
    }
}

#[test]
fn test_extract_record() {
    let sel = Selector::parse(STREET_DATA_SELECTOR).unwrap();

    let tests = [
        (
            r"<table>
            <tr>
                <td> 1 </td>
                <td> street_name </td>
                <td> old_street_name </td>
                <td> municipality </td>
                <td> settlement </td>
                <td> settlement_part </td>
                <td> si_list </td>
            </tr>
        </table>",
            Some(Record {
                street_name: "street_name".to_string(),
                old_street_name: Some("old_street_name".to_string()),
                municipality: "municipality".to_string(),
                settlement: "settlement".to_string(),
                settlement_part: "settlement_part".to_string(),
                si_list: Some("si_list".to_string()),
            }),
        ),
        (
            r"<table>
            <tr>
                <td> 1 </td>
                <td> street_name </td>
                <td>  </td>
                <td> municipality </td>
                <td> settlement </td>
                <td> settlement_part </td>
                <td> NULL </td>
            </tr>
        </table>",
            Some(Record {
                street_name: "street_name".to_string(),
                old_street_name: None,
                municipality: "municipality".to_string(),
                settlement: "settlement".to_string(),
                settlement_part: "settlement_part".to_string(),
                si_list: None,
            }),
        ),
        (
            r"<table>
            <tr>
                <td> 1 </td>
                <td> street_name </td>
                <td>  </td>
                <td> municipality </td>
                <td> settlement </td>
                <td> settlement_part </td>
            </tr>
        </table>",
            None,
        ),
    ];

    for (html, expected_value) in tests {
        let document = Html::parse_fragment(html);
        let tds: Vec<Vec<String>> = document.select(&sel).map(text_nodes).collect();
        let result = extract_record(&tds);

        assert_eq!(result, expected_value)
    }
}

#[test]
fn page_without_rows_has_no_records() {
    assert_eq!(extract_dataset("<html><body></body></html>"), Some(vec![]));
    let short = r#"<table id="ulicebgdoutGrid"><tbody><tr class="pg-row"><td>1</td><td>x</td></tr></tbody></table>"#;
    assert_eq!(extract_dataset(short), None);
}

#[test]
fn record_is_written_as_csv() {
    let r = Record {
        street_name: "a".to_string(),
        old_street_name: None,
        municipality: "m".to_string(),
        settlement: "s".to_string(),
        settlement_part: "p".to_string(),
        si_list: Some("l".to_string()),
    };
    assert_eq!(r.to_text(), "a,,m,s,p,l");
}
