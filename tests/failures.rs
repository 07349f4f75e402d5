use electricity::address::{Building, BuildingNumber, BuildingRange};
use electricity::elektrodistribucija_parser::PageError;
use electricity::failures::{
    cell_string, city_text, date_text, format_date, last_version, next_version,
    parse_raw_data_to_data, rows_to_data,
    ElectricityFailuresRawData,
};

fn nodes(cells: &[&str]) -> Vec<Vec<String>> {
    cells.iter().map(|c| vec![c.to_string()]).collect()
}

#[test]
fn test_page_page_to_rows() {
    let data = ElectricityFailuresRawData {
        id: String::from("id"),
        date: String::from("01-01-2021"),
        url: String::from("url"),
        html: String::from(
            r#"
                <html>
                    <body>
                        <table>
                            <tbody>
                                <tr>
                                    <td>
                                        <b>Скопје - Центар - 01.01.2021</b>
                                    </td>
                                </tr>
                            </tbody>
                        </table>
                        <table>
                            <tbody>
                                <tr>
                                    <td>Општина</td>
                                    <td>Време</td>
                                    <td>Улице</td>
                                </tr>
                                <tr>
                                    <td>Центар</td>
                                    <td>08:00 - 16:00</td>
                                    <td>Бул. Климент Охридски: 43-46</td>
                                </tr>
                            </tbody>
                        </table>
                    </body>
                </html>
            "#,
        ),
        hash: String::from("hash"),
        version: 1,
    };
    let rows = parse_raw_data_to_data(&data).unwrap();

    assert_eq!(rows.len(), 1);
    assert_eq!(rows[0].city, "Скопје");
    assert_eq!(rows[0].region, "Центар");
    assert_eq!(rows[0].time, "08:00 - 16:00");
    assert_eq!(rows[0].date, "01-01-2021");
}

#[test]
fn page_with_one_table_is_an_error() {
    let data = ElectricityFailuresRawData {
        id: String::new(),
        date: String::new(),
        url: String::new(),
        html: String::from("<table><tbody><tr><td><b>X - 1.1.2021</b></td></tr></tbody></table>"),
        hash: String::new(),
        version: 0,
    };
    assert_eq!(parse_raw_data_to_data(&data).unwrap_err(), PageError::MissingTable);
}

#[test]
fn dates_are_written_day_first() {
    assert_eq!(format_date("2021-03-04").unwrap(), "04-03-2021");
    assert_eq!(format_date("04-03-2021").unwrap(), "04-03-2021");
    assert_eq!(format_date("not a date"), Err(PageError::InvalidDate));
}

#[test]
fn heading_gives_city_and_date() {
    assert_eq!(city_text("Скопје - Центар - 01.01.2021"), "Скопје");
    assert_eq!(city_text("no dash here"), "no dash here");
    assert_eq!(date_text("Скопје - Центар - 01.01.2021"), "01-01-2021");
    assert_eq!(date_text("датум: 1.2.2023."), "1-2-2023");
    assert_eq!(date_text("x ..5..6"), "5-6");
    assert_eq!(date_text(""), "");
}

#[test]
fn cell_text_joins_nodes() {
    assert_eq!(cell_string(&vec!["a ".to_string(), "b".to_string()]), "a b");
}

#[test]
fn rows_become_outages_and_unparsed_streets_are_skipped() {
    let rows = vec![
        nodes(&["Улице", "Општина", "Време"]),
        nodes(&["Цара Душана: 5,7-9", "Стари град", "08-12"]),
        nodes(&["no numbers here", "Врачар", "09-10"]),
    ];
    let out = rows_to_data("Београд", "2021-01-02", &rows).unwrap();
    assert_eq!(out.len(), 1);
    assert_eq!(out[0].region, "Стари град");
    assert_eq!(out[0].time, "08-12");
    assert_eq!(out[0].date, "02-01-2021");
    let items = out[0].addresses.clone().into_items();
    assert_eq!(items[0].street, "cara dušana");
    assert_eq!(
        items[0].buildings,
        vec![
            Building::Number(BuildingNumber { value: 5, extension: None }),
            Building::Range(BuildingRange {
                from: BuildingNumber { value: 7, extension: None },
                to: BuildingNumber { value: 9, extension: None },
            }),
        ]
    );
}

#[test]
fn table_errors() {
    assert_eq!(rows_to_data("c", "2021-01-01", &vec![]).unwrap_err(), PageError::MissingHeadingRow);
    let no_street = vec![nodes(&["Општина", "Време"])];
    assert_eq!(rows_to_data("c", "2021-01-01", &no_street).unwrap_err(), PageError::MissingColumn);
    let short_row = vec![nodes(&["Општина", "Време", "Улице"]), nodes(&["a", "b"])];
    assert_eq!(rows_to_data("c", "2021-01-01", &short_row).unwrap_err(), PageError::MissingCell);
    let bad_date = vec![nodes(&["Општина", "Време", "Улице"]), nodes(&["a", "b", "s: 1"])];
    assert_eq!(rows_to_data("c", "someday", &bad_date).unwrap_err(), PageError::InvalidDate);
}

#[test]
fn last_version_takes_the_first_highest() {
    let copies = vec![(2, "b".to_string()), (3, "c".to_string()), (3, "d".to_string()), (1, "a".to_string())];
    assert_eq!(last_version(&copies), (3, Some("c".to_string())));
    assert_eq!(last_version(&vec![]), (0, None));
    assert_eq!(next_version((3, Some("c".to_string())), "c"), None);
    assert_eq!(next_version((3, Some("c".to_string())), "x"), Some(4));
    assert_eq!(next_version((0, None), "x"), Some(1));
}

#[test]
fn outage_is_written_for_logs() {
    let rows = vec![nodes(&["Општина", "Време", "Улице"]), nodes(&["Врачар", "08-12", "Крунска: 1"])];
    let out = rows_to_data("Београд", "2021-01-02", &rows).unwrap();
    assert_eq!(
        out[0].to_text(),
        "{ city: Београд, region: Врачар, time: 08-12, date: 02-01-2021, addresses: krunska: 1,\n }"
    );
}
