use vegvesen_lookup::cache::CacheState;
use vegvesen_lookup::cache::LookupStep;
use vegvesen_lookup::cache::begin_lookup;
use vegvesen_lookup::cache::finish_lookup;
use vegvesen_lookup::html::get_registration_number;
use vegvesen_lookup::html::request_url;
use vegvesen_lookup::section::Section;
use vegvesen_lookup::section::fallback_message;
use vegvesen_lookup::section::pair_cells;
use vegvesen_lookup::section::render_sections;
use vegvesen_lookup::section::sections_to_text;
use vegvesen_lookup::section::table_to_section;

const FALLBACK: &str = "No such registration number or API Timeout. Please try again later.\n";

fn strings(items: &[&str]) -> Vec<String> {
    items.iter().map(|s| s.to_string()).collect()
}

#[test]
fn pairing_matched_counts() {
    let labels = strings(&["Fuel", "Year", "Weight"]);
    let values = strings(&["Petrol", "2011", "1200"]);
    let body = pair_cells(&labels, &values);
    assert_eq!(body.len(), 3);
    assert_eq!(body[0], ("Fuel".to_string(), "Petrol".to_string()));
    assert_eq!(body[1], ("Year".to_string(), "2011".to_string()));
    assert_eq!(body[2], ("Weight".to_string(), "1200".to_string()));
}

#[test]
fn pairing_truncates_to_the_shorter_side() {
    let labels = strings(&["Fuel", "Year", "Weight"]);
    let values = strings(&["Petrol", "2011"]);
    let body = pair_cells(&labels, &values);
    assert_eq!(body.len(), 2);
    assert_eq!(body[0], ("Fuel".to_string(), "Petrol".to_string()));
    assert_eq!(body[1], ("Year".to_string(), "2011".to_string()));
}

#[test]
fn pairing_duplicate_label_keeps_latest_value() {
    let labels = strings(&["Fuel", "Fuel"]);
    let values = strings(&["Petrol", "Diesel"]);
    let body = pair_cells(&labels, &values);
    assert_eq!(body.len(), 1);
    assert_eq!(body[0], ("Fuel".to_string(), "Diesel".to_string()));
}

#[test]
fn missing_title_defaults() {
    let section = table_to_section(None, &strings(&["Fuel"]), &strings(&["Petrol"]));
    assert_eq!(section.title, "No title");
    assert_eq!(section.table_body.len(), 1);
}

#[test]
fn render_single_section() {
    let section = Section {
        title: "Engine".to_string(),
        table_body: vec![
            ("Fuel".to_string(), "Petrol".to_string()),
            ("Year".to_string(), "2011".to_string()),
        ],
    };
    let rendered = render_sections(&vec![section]);
    assert_eq!(
        rendered,
        "[{\"title\":\"Engine\",\"table_body\":{\"Fuel\":\"Petrol\",\"Year\":\"2011\"}}]"
    );
}

#[test]
fn render_escapes_json_characters() {
    let section = Section {
        title: "A\"B\\C\nD\u{1}".to_string(),
        table_body: vec![],
    };
    let rendered = render_sections(&vec![section]);
    assert_eq!(
        rendered,
        "[{\"title\":\"A\\\"B\\\\C\\nD\\u0001\",\"table_body\":{}}]"
    );
}

#[test]
fn render_two_sections_comma_joined() {
    let first = Section { title: "One".to_string(), table_body: vec![] };
    let second = Section { title: "Two".to_string(), table_body: vec![] };
    let rendered = render_sections(&vec![first, second]);
    assert_eq!(
        rendered,
        "[{\"title\":\"One\",\"table_body\":{}},{\"title\":\"Two\",\"table_body\":{}}]"
    );
}

#[test]
fn zero_sections_fall_back() {
    let text = sections_to_text(&Vec::new());
    assert_eq!(text, FALLBACK);
    assert_eq!(fallback_message(), FALLBACK);
}

#[test]
fn document_with_one_module() {
    let page = "<html><body>\
        <table class=\"kjoretoy-table\">\
        <caption class=\"modul-overskrift\">Engine</caption>\
        <tr><th>Fuel</th><td>Petrol</td></tr>\
        <tr><th>Year</th><td>2011</td></tr>\
        </table></body></html>";
    let value = get_registration_number(page);
    assert_eq!(
        value,
        "[{\"title\":\"Engine\",\"table_body\":{\"Fuel\":\"Petrol\",\"Year\":\"2011\"}}]"
    );
}

#[test]
fn document_with_mismatched_cells_truncates() {
    let page = "<html><body>\
        <table class=\"kjoretoy-table\">\
        <tr><th>Fuel</th><td>Petrol</td></tr>\
        <tr><th>Year</th></tr>\
        </table></body></html>";
    let value = get_registration_number(page);
    assert_eq!(
        value,
        "[{\"title\":\"No title\",\"table_body\":{\"Fuel\":\"Petrol\"}}]"
    );
}

#[test]
fn document_with_two_modules_keeps_document_order() {
    let page = "<html><body>\
        <table class=\"kjoretoy-table\">\
        <caption class=\"modul-overskrift\">Engine</caption>\
        <tr><th>Fuel</th><td>Petrol</td></tr>\
        </table>\
        <table class=\"kjoretoy-table\">\
        <tr><th>Weight</th><td>1200</td></tr>\
        </table></body></html>";
    let value = get_registration_number(page);
    assert_eq!(
        value,
        "[{\"title\":\"Engine\",\"table_body\":{\"Fuel\":\"Petrol\"}},\
{\"title\":\"No title\",\"table_body\":{\"Weight\":\"1200\"}}]"
    );
}

#[test]
fn document_without_modules_yields_fallback() {
    let page = "<html><body><p>nothing here</p></body></html>";
    assert_eq!(get_registration_number(page), FALLBACK);
}

#[test]
fn lookup_scenario_one_module() {
    let page = "<html><body>\
        <table class=\"kjoretoy-table\">\
        <caption class=\"modul-overskrift\">Engine</caption>\
        <tr><th>Fuel</th><td>Petrol</td></tr>\
        <tr><th>Year</th><td>2011</td></tr>\
        </table></body></html>";
    let expected = "[{\"title\":\"Engine\",\"table_body\":{\"Fuel\":\"Petrol\",\"Year\":\"2011\"}}]";

    let mut cache = CacheState::new();
    let first = match begin_lookup(&cache, "AB1234") {
        LookupStep::Hit(v) => Ok(v),
        LookupStep::Miss => finish_lookup(&mut cache, "AB1234", Ok(get_registration_number(page))),
    };
    assert_eq!(first.unwrap(), expected);

    let second = match begin_lookup(&cache, "AB1234") {
        LookupStep::Hit(v) => Ok(v),
        LookupStep::Miss => finish_lookup(&mut cache, "AB1234", Err("must not run".to_string())),
    };
    assert_eq!(second.unwrap(), expected);
}

#[test]
fn lookup_scenario_no_modules() {
    let page = "<html><body><div>no vehicle data</div></body></html>";

    let mut cache = CacheState::new();
    let first = match begin_lookup(&cache, "ZZ9999") {
        LookupStep::Hit(v) => Ok(v),
        LookupStep::Miss => finish_lookup(&mut cache, "ZZ9999", Ok(get_registration_number(page))),
    };
    assert_eq!(first.unwrap(), FALLBACK);

    let second = match begin_lookup(&cache, "ZZ9999") {
        LookupStep::Hit(v) => Ok(v),
        LookupStep::Miss => finish_lookup(&mut cache, "ZZ9999", Err("must not run".to_string())),
    };
    assert_eq!(second.unwrap(), FALLBACK);
}

#[test]
fn url_interpolates_key_verbatim() {
    assert_eq!(
        request_url("AB1234"),
        "http://www.vegvesen.no/Kjoretoy/Kjop+og+salg/Kj\u{f8}ret\u{f8}yopplysninger?registreringsnummer=AB1234"
    );
}
