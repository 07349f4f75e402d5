use electricity::elektrodistribucija_parser::{
    date_from_header, get_content_table_html, get_header_table_html, get_page_date,
    get_page_header, header_from_text_nodes,
};

const TEST_PAGE_HTML: &str = r#"
        <html>
            <head>
                <title>Test</title>
            </head>
            <body>
                <table>
                    <tbody>
                        <tr>
                            <td>
                                <b>БЕОГРАД - Планирана искључења за датум: 2021-01-01</b>
                            </td>
                        </tr>
                    </tbody>
                </table>
                <table>
                    <tbody>
                        <tr>
                            <td>
                                <b>Општина</b>
                            </td>
                            <td>
                                <b>Време</b>
                            </td>
                            <td>
                                <b>Улице</b>
                            </td>
                        </tr>
                        <tr>
                            <td>
                                <b>Општина 1</b>
                            </td>
                            <td>
                                <b>Време 1</b>
                            </td>
                            <td>
                                <b>Улица 1</b>
                            </td>
                        </tr>
                        <tr>
                            <td>
                                <b>Општина 2</b>
                            </td>
                            <td>
                                <b>Време 2</b>
                            </td>
                            <td>
                                <b>Улица 2</b>
                            </td>
                        </tr>
                    </tbody>
                </table>
            </body>
        </html>
    "#;

#[test]
fn test_get_page_date_extracts_date() {
    let date = get_page_date(TEST_PAGE_HTML).unwrap();

    assert_eq!(date, "2021-01-01");
}

#[test]
fn test_get_page_header_extracts_header() {
    let header = get_page_header(TEST_PAGE_HTML);

    assert_eq!(header, "БЕОГРАД - Планирана искључења за датум: 2021-01-01");
}

#[test]
fn page_without_table_has_empty_header() {
    assert_eq!(get_page_header("<html><body><p>nothing</p></body></html>"), "");
}

#[test]
fn header_nodes_are_trimmed_and_joined() {
    let nodes = vec!["  БЕОГРАД ".to_string(), "\n - датум: 1.2.2023\t".to_string()];
    assert_eq!(header_from_text_nodes(&nodes), "БЕОГРАД- датум: 1.2.2023");
    assert_eq!(header_from_text_nodes(&vec![]), "");
}

#[test]
fn date_is_text_after_last_colon() {
    assert_eq!(date_from_header("a: b: 2021-01-01 "), "2021-01-01");
    assert_eq!(date_from_header(" no colon "), "no colon");
    assert_eq!(date_from_header("ends with:"), "");
}

#[test]
fn test_get_header_table_html_extracts_header_table() {
    let header_table = get_header_table_html(TEST_PAGE_HTML).unwrap();

    assert_eq!(header_table, "<html><table>\n                    <tbody>\n                        <tr>\n                            <td>\n                                <b>БЕОГРАД - Планирана искључења за датум: 2021-01-01</b>\n                            </td>\n                        </tr>\n                    </tbody>\n                </table></html>");
}

#[test]
fn test_get_content_table_html_extracts_content_table() {
    let content_table = get_content_table_html(TEST_PAGE_HTML).unwrap();

    assert_eq!(content_table, "<html><table>\n                    <tbody>\n                        <tr>\n                            <td>\n                                <b>Општина</b>\n                            </td>\n                            <td>\n                                <b>Време</b>\n                            </td>\n                            <td>\n                                <b>Улице</b>\n                            </td>\n                        </tr>\n                        <tr>\n                            <td>\n                                <b>Општина 1</b>\n                            </td>\n                            <td>\n                                <b>Време 1</b>\n                            </td>\n                            <td>\n                                <b>Улица 1</b>\n                            </td>\n                        </tr>\n                        <tr>\n                            <td>\n                                <b>Општина 2</b>\n                            </td>\n                            <td>\n                                <b>Време 2</b>\n                            </td>\n                            <td>\n                                <b>Улица 2</b>\n                            </td>\n                        </tr>\n                    </tbody>\n                </table></html>");
}

#[test]
fn missing_table_has_no_html() {
    assert_eq!(get_content_table_html("<table></table>"), None);
}
