use chord::load::csv::{CsvJobLoader, CsvStageLoader};
use chord::load::file::load_data;
use chord::load::flow::YmlFlowParser;
use chord::load::{field_text_of, read_rows, task_path, CsvField, PageLoader};
use chord::value::{JsonMap, Number, Value};

fn row(pairs: &[(&str, &str)]) -> Result<Vec<(String, String)>, String> {
    Ok(pairs.iter().map(|(k, v)| (k.to_string(), v.to_string())).collect())
}

fn row_value(pairs: &[(&str, &str)]) -> Value {
    Value::Object(JsonMap {
        entries: pairs.iter().map(|(k, v)| (k.to_string(), Value::String(v.to_string()))).collect(),
    })
}

#[test]
fn pages_are_numbered_after_each_other() {
    let rows = vec![row(&[("a", "1")]), row(&[("a", "2")]), row(&[("a", "3")])];
    let mut l = PageLoader::new(rows, false);
    let p1 = l.load(2).ok().unwrap();
    assert_eq!(p1.len(), 2);
    assert_eq!(p1[0].0, "2");
    assert_eq!(p1[0].1, row_value(&[("a", "1")]));
    assert_eq!(p1[1].0, "3");
    let p2 = l.load(2).ok().unwrap();
    assert_eq!(p2.len(), 1);
    assert_eq!(p2[0].0, "4");
    assert_eq!(p2[0].1, row_value(&[("a", "3")]));
    let p3 = l.load(2).ok().unwrap();
    assert!(p3.is_empty());
}

#[test]
fn last_page_repeated_up_to_size() {
    let rows = vec![row(&[("a", "1")]), row(&[("a", "2")]), row(&[("a", "3")])];
    let mut l = CsvStageLoader::new(rows, "fix_size_repeat_last_page".to_string());
    let p1 = l.load(2).ok().unwrap();
    assert_eq!(p1.len(), 2);
    let p2 = l.load(2).ok().unwrap();
    assert_eq!(p2.len(), 2);
    assert_eq!(p2[0].0, "4");
    assert_eq!(p2[1].0, "5");
    assert_eq!(p2[1].1, row_value(&[("a", "3")]));
    let p3 = l.load(2).ok().unwrap();
    assert!(p3.is_empty());
}

#[test]
fn size_zero_loads_all_and_errors_end_page() {
    let rows = vec![row(&[("a", "1")]), Err("bad row".to_string()), row(&[("a", "3")])];
    let mut l = PageLoader::new(rows, false);
    assert_eq!(l.load(0).err(), Some("bad row".to_string()));
    let p = l.load(0).ok().unwrap();
    assert_eq!(p.len(), 1);
    assert_eq!(p[0].0, "2");
    assert_eq!(p[0].1, row_value(&[("a", "3")]));
}

#[test]
fn job_and_task_paths() {
    assert_eq!(task_path("/job", "a.b"), "/job/a/b");
    assert_eq!(task_path("/job", "t"), "/job/t");
    assert_eq!(task_path("/job/", "t"), "/job/t");
    let conf = Value::Object(JsonMap {
        entries: vec![(
            "csv".to_string(),
            Value::Object(JsonMap { entries: vec![("strategy".to_string(), Value::String("s".to_string()))] }),
        )],
    });
    let j = CsvJobLoader::new(Some(&conf), "/job");
    let t = j.task("a.b");
    assert_eq!(t.stage_path("s1"), "/job/a/b/s1.csv");
    let j2 = CsvJobLoader::new(None, "/job");
    let _ = j2.task("x");
    let cj = chord::load::case_csv::CsvJobLoader::new(None, "/j");
    assert_eq!(cj.task_path("x.y"), "/j/x/y");
    let store = chord::load::data::Store::new("/d");
    assert_eq!(store.create_path("case"), "/d/case.csv");
}

#[test]
fn csv_tables_read() {
    let data = b"name,age\nann,007\nbob,1.50\n";
    let t = read_rows(data);
    assert_eq!(t.len(), 2);
    assert_eq!(t[0], row(&[("age", "7"), ("name", "ann")]));
    assert_eq!(t[1], row(&[("age", "1.5"), ("name", "bob")]));
    let r = load_data(b"b,a\n1,2\n").ok().unwrap();
    assert_eq!(r, vec![vec![("a".to_string(), "2".to_string()), ("b".to_string(), "1".to_string())]]);
    let e = load_data(b"a,b\n1\n").err().unwrap();
    assert_eq!(e.code(), "csv");
}

#[test]
fn yaml_parser_maps_errors() {
    let p = YmlFlowParser::new();
    let parse = |t: &str| -> Result<Value, String> {
        if t == "ok" {
            Ok(Value::Null)
        } else {
            Err("bad yaml".to_string())
        }
    };
    assert_eq!(p.parse_str("ok", &parse).ok(), Some(Value::Null));
    let e = p.parse_str("x", &parse).err().unwrap();
    assert_eq!(e.code(), "yaml");
    assert_eq!(e.message(), "bad yaml");
    assert_eq!(e.to_string(), "{ code: yaml, message: bad yaml }");
}

#[test]
fn whole_table_at_once() {
    let rows = vec![row(&[("a", "1")]), row(&[("a", "2")])];
    let mut l = PageLoader::new(rows, true);
    let p = l.load(0).ok().unwrap();
    assert_eq!(p.len(), 2);
    assert_eq!(p[0].0, "2");
    assert_eq!(p[1].0, "3");
    assert_eq!(p[1].1, row_value(&[("a", "2")]));
    assert!(l.load(0).ok().unwrap().is_empty());
}

#[test]
fn csv_fields_of_every_kind_read_as_text() {
    let data = b"a,b,c,d,e\ntrue,-12,18446744073709551615,2.50,NaN\n";
    let t = read_rows(data);
    assert_eq!(
        t[0],
        row(&[("a", "true"), ("b", "-12"), ("c", "18446744073709551615"), ("d", "2.5"), ("e", "null")])
    );
}

#[test]
fn field_texts() {
    assert_eq!(field_text_of(&CsvField::Text("x".to_string())), "x");
    assert_eq!(field_text_of(&CsvField::Bool(false)), "false");
    assert_eq!(field_text_of(&CsvField::Number(Some(42), Some(42), "ignored".to_string())), "42");
    assert_eq!(field_text_of(&CsvField::Number(None, Some(-7), "ignored".to_string())), "-7");
    assert_eq!(field_text_of(&CsvField::Number(None, None, "0.25".to_string())), "0.25");
    assert_eq!(field_text_of(&CsvField::Null), "null");
    assert_eq!(field_text_of(&CsvField::Nested("[1]".to_string())), "[1]");
    assert_eq!(Number::NegInt(i64::MIN).to_text(), "-9223372036854775808");
    assert_eq!(Number::PosInt(0).to_text(), "0");
}
