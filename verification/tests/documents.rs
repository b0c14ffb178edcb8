use csv2tex::exponent::ExponentError;
use csv2tex::input::{assemble, convert, Conversion, ConvertError};
use csv2tex::outcome::flatten;
use csv2tex::table::TableOptions;

fn row(cells: &[&str]) -> Vec<String> {
    cells.iter().map(|cell| cell.to_string()).collect()
}

fn framed(layout: &str, header: &str, body: &[&str]) -> Vec<String> {
    let mut lines = row(&[
        "\\begin{table}[!hb]",
        "\\begin{center}",
        "\\caption{タイトル}",
        "\\label{tab:XXX}",
    ]);
    lines.push(format!("\\begin{{tabular}}{{{}}} \\hline", layout));
    lines.push(header.to_string());
    lines.extend(body.iter().map(|line| line.to_string()));
    lines.extend(row(&["\\hline", "\\end{tabular}", "\\end{center}", "\\end{table}"]));
    lines
}

#[test]
fn document_of_two_rows() {
    let converted = convert(&TableOptions::default(), b"Num,Label\n1E2,x\n3.0E+5,y\n").unwrap();
    assert!(converted.lines.contains(&"Num&Label \\\\ \\hline".to_string()));
    assert!(converted.lines.contains(&"$1 \\times 10^{2}$&x \\\\".to_string()));
    assert!(converted.lines.contains(&"$3.0 \\times 10^{5}$&y \\\\".to_string()));
    assert_eq!(
        converted,
        Conversion {
            lines: framed(
                "cc",
                "Num&Label \\\\ \\hline",
                &["$1 \\times 10^{2}$&x \\\\", "$3.0 \\times 10^{5}$&y \\\\"],
            ),
            skipped: vec![],
        }
    );
}

#[test]
fn document_with_options() {
    let options =
        TableOptions { title: "Voltage".to_string(), label: "volt".to_string(), bordered: true };
    let converted = convert(&options, b"t,V,I\n0,1.5E0,2E-3\n").unwrap();
    assert_eq!(
        converted.lines,
        row(&[
            "\\begin{table}[!hb]",
            "\\begin{center}",
            "\\caption{Voltage}",
            "\\label{tab:volt}",
            "\\begin{tabular}{c|c|c} \\hline",
            "t&V&I \\\\ \\hline",
            "0&$1.5 \\times 10^{0}$&$2 \\times 10^{-3}$ \\\\",
            "\\hline",
            "\\end{tabular}",
            "\\end{center}",
            "\\end{table}",
        ])
    );
}

#[test]
fn quoted_fields_are_read_as_one_cell() {
    let converted = convert(&TableOptions::default(), b"a,b\n\"x, y\",\" 1E3 \"\n").unwrap();
    assert_eq!(
        converted.lines,
        framed("cc", "a&b \\\\ \\hline", &["x, y&$1 \\times 10^{3}$ \\\\"])
    );
}

#[test]
fn empty_document_is_a_table_without_columns() {
    assert_eq!(
        convert(&TableOptions::default(), b""),
        Ok(Conversion { lines: framed("", " \\\\ \\hline", &[]), skipped: vec![] })
    );
}

#[test]
fn header_that_is_not_text_is_refused() {
    assert_eq!(convert(&TableOptions::default(), b"a,\xff\n1,2\n"), Err(ConvertError::Header));
}

#[test]
fn record_that_cannot_be_read_is_left_out() {
    let converted =
        convert(&TableOptions::default(), b"a,b\n1,2\n3\n4,5\n6,\xff\n7,8,9\n1E1,0\n").unwrap();
    assert_eq!(
        converted,
        Conversion {
            lines: framed(
                "cc",
                "a&b \\\\ \\hline",
                &["1&2 \\\\", "4&5 \\\\", "$1 \\times 10^{1}$&0 \\\\"],
            ),
            skipped: vec![1, 3, 4],
        }
    );
}

#[test]
fn failing_cell_is_reported_by_its_record() {
    assert_eq!(
        convert(&TableOptions::default(), b"a,b\n1,2\n3\n4,1E\n5,1E+\n"),
        Err(ConvertError::Cell { record: 2, column: 1, error: ExponentError::Empty })
    );
    assert_eq!(
        convert(&TableOptions::default(), b"a\n1E2147483648\n"),
        Err(ConvertError::Cell { record: 0, column: 0, error: ExponentError::OutOfRange })
    );
}

#[test]
fn header_is_not_classified() {
    let converted = convert(&TableOptions::default(), b"E, 1E5 \n1,2\n").unwrap();
    assert_eq!(converted.lines, framed("cc", "E& 1E5  \\\\ \\hline", &["1&2 \\\\"]));
}

#[test]
fn assemble_takes_the_outcomes_of_reading() {
    let header: Result<Vec<String>, u8> = Ok(row(&["Num", "Label"]));
    let records: Vec<Result<Vec<String>, u8>> =
        vec![Err(1), Ok(row(&["1E2", "x"])), Err(2), Ok(row(&["3.0E+5", "y"])), Err(3)];
    assert_eq!(
        assemble(&TableOptions::default(), &header, &records),
        Ok(Conversion {
            lines: framed(
                "cc",
                "Num&Label \\\\ \\hline",
                &["$1 \\times 10^{2}$&x \\\\", "$3.0 \\times 10^{5}$&y \\\\"],
            ),
            skipped: vec![0, 2, 4],
        })
    );
}

#[test]
fn assemble_without_a_header_is_refused() {
    let header: Result<Vec<String>, u8> = Err(0);
    let records: Vec<Result<Vec<String>, u8>> = vec![Ok(row(&["1E", "x"]))];
    assert_eq!(assemble(&TableOptions::default(), &header, &records), Err(ConvertError::Header));
}

#[test]
fn assemble_reports_the_first_failing_cell() {
    let header: Result<Vec<String>, u8> = Ok(row(&["a", "b"]));
    let records: Vec<Result<Vec<String>, u8>> = vec![
        Err(0),
        Ok(row(&["1", "2"])),
        Ok(row(&["x", "1E-", "1E"])),
        Ok(row(&["1E", "y"])),
    ];
    assert_eq!(
        assemble(&TableOptions::default(), &header, &records),
        Err(ConvertError::Cell { record: 2, column: 1, error: ExponentError::Malformed })
    );
}

#[test]
fn flatten_keeps_what_succeeded() {
    assert_eq!(flatten::<u8, &str>(Some(Ok(7))), Some(7));
    assert_eq!(flatten::<u8, &str>(Some(Err("failed"))), None);
    assert_eq!(flatten::<u8, &str>(None), None);
}
