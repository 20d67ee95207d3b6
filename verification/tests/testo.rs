use rete_neurale_mlp::testo::analizza_usize;
use rete_neurale_mlp::testo::e_token_numerico;
use rete_neurale_mlp::testo::e_token_positivo;
use rete_neurale_mlp::testo::scrivi_usize;

fn t(s: &str) -> Vec<u8> {
    s.as_bytes().to_vec()
}

#[test]
fn il_riconoscitore_concorda_con_la_lettura_reale() {
    let campioni = [
        "1", "1.5", "-0.5", "+0.5", ".5", "5.", "5.e3", "1e3", "1E-3", "1e+3", "0", "-0",
        "inf", "-inf", "+inf", "Infinity", "INF", "nan", "NaN", "-NaN", "0.001953125",
        "", "-", "+", ".", "e", "1e", "1e+", "abc", "1.2.3", "--1", "1 2", "1_000", "0x10",
        "Infinit", "nana", "1.5e2.5", " 1", "1 ",
    ];
    for campione in campioni.iter() {
        let atteso = campione.parse::<f64>().is_ok();
        assert_eq!(
            e_token_numerico(&t(campione)),
            atteso,
            "token {:?}",
            campione
        );
    }
}

#[test]
fn la_positivita_segue_il_valore_scritto() {
    assert!(e_token_positivo(&t("0.5")));
    assert!(e_token_positivo(&t("1e-2")));
    assert!(e_token_positivo(&t("inf")));
    assert!(e_token_positivo(&t("+2.")));
    assert!(!e_token_positivo(&t("0")));
    assert!(!e_token_positivo(&t("0.000")));
    assert!(!e_token_positivo(&t("0e5")));
    assert!(!e_token_positivo(&t("-1")));
    assert!(!e_token_positivo(&t("-inf")));
    assert!(!e_token_positivo(&t("nan")));
    assert!(!e_token_positivo(&t("abc")));
}

#[test]
fn interi_scritti_e_riletti() {
    for n in [0usize, 7, 10, 99, 123456, usize::MAX] {
        let scritto = scrivi_usize(n);
        assert_eq!(String::from_utf8(scritto.clone()).unwrap(), n.to_string());
        assert_eq!(analizza_usize(&scritto), Some(n));
    }
}

#[test]
fn lettura_degli_interi_come_nella_libreria_standard() {
    assert_eq!(analizza_usize(&t("42")), Some(42));
    assert_eq!(analizza_usize(&t("+42")), Some(42));
    assert_eq!(analizza_usize(&t("")), None);
    assert_eq!(analizza_usize(&t("-1")), None);
    assert_eq!(analizza_usize(&t("4.2")), None);
    assert_eq!(analizza_usize(&t("999999999999999999999999999999")), None);
    assert_eq!("999999999999999999999999999999".parse::<usize>().ok(), None);
}
