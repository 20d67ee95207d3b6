use rete_neurale_mlp::attivazione::FunzioneAttivazione;
use rete_neurale_mlp::errori::ErroreRete;
use rete_neurale_mlp::rete::Matrice;
use rete_neurale_mlp::rete::ReteNeurale;
use rete_neurale_mlp::rete::Strato;

fn t(s: &str) -> Vec<u8> {
    s.as_bytes().to_vec()
}

fn testo(v: Vec<u8>) -> String {
    String::from_utf8(v).unwrap()
}

fn rete_piccola() -> ReteNeurale {
    let m = Matrice::nuova(1, 2, vec![t("0.5"), t("-0.25")]).unwrap();
    ReteNeurale::nuova_rete_uniforme(
        vec![2, 1],
        t("0.01"),
        FunzioneAttivazione::Sigmoide,
        vec![m],
    )
    .unwrap()
}

#[test]
fn serializzazione_testo_esatto() {
    let rete = rete_piccola();
    assert_eq!(
        testo(rete.serializza()),
        "[+]  0.01\n[*]  Sigmoide; \n[#]  2, 1\n0.5 -0.25\n---\n"
    );
}

#[test]
fn andata_e_ritorno_uniforme() {
    let rete = rete_piccola();
    let scritto = rete.serializza();
    let riletta = ReteNeurale::deserializza(&scritto).unwrap();
    assert_eq!(riletta.serializza(), scritto);
    assert_eq!(riletta.strati(), vec![2usize, 1usize]);
    assert_eq!(testo(riletta.tasso_apprendimento()), "0.01");
}

#[test]
fn andata_e_ritorno_per_strati() {
    let m0 = Matrice::nuova(3, 2, vec![t("0.1"), t("0.2"), t("0.3"), t("-0.1"), t("-0.2"), t("-0.3")])
        .unwrap();
    let m1 = Matrice::nuova(1, 3, vec![t("1"), t("2"), t("3")]).unwrap();
    let strati = vec![
        Strato { neuroni: 2, funzione_attivazione: FunzioneAttivazione::Nessuna },
        Strato { neuroni: 3, funzione_attivazione: FunzioneAttivazione::Tanh },
        Strato { neuroni: 1, funzione_attivazione: FunzioneAttivazione::Sigmoide },
    ];
    let rete = ReteNeurale::nuova(strati, t("0.5"), vec![m0, m1]).unwrap();
    let scritto = rete.serializza();
    assert_eq!(
        testo(scritto.clone()),
        "[+]  0.5\n[*]  Null; Tanh; Sigmoide; \n[#]  2, 3, 1\n\
         0.1 -0.1\n0.2 -0.2\n0.3 -0.3\n---\n1 2 3\n---\n"
    );
    let riletta = ReteNeurale::deserializza(&scritto).unwrap();
    assert_eq!(riletta.serializza(), scritto);
    let terzo = riletta.serializza();
    let seconda = ReteNeurale::deserializza(&terzo).unwrap();
    assert_eq!(seconda.serializza(), terzo);
}

#[test]
fn parametro_con_perdita_conservato() {
    let m = Matrice::nuova(1, 2, vec![t("0.5"), t("-0.25")]).unwrap();
    let rete = ReteNeurale::nuova_rete_uniforme(
        vec![2, 1],
        t("0.01"),
        FunzioneAttivazione::LeakyReLU { alfa: t("0.05") },
        vec![m],
    )
    .unwrap();
    let scritto = rete.serializza();
    assert!(testo(scritto.clone()).contains("LeakyReLU_0.05; "));
    let riletta = ReteNeurale::deserializza(&scritto).unwrap();
    assert_eq!(riletta.serializza(), scritto);
    assert!(testo(riletta.serializza()).contains("LeakyReLU_0.05; "));
}

#[test]
fn tasso_non_positivo_ignorato() {
    let contenuto = t("[+]  -1\n[*]  Sigmoide; \n[#]  2, 1\n0.5 0.5\n---\n");
    let rete = ReteNeurale::deserializza(&contenuto).unwrap();
    assert_eq!(testo(rete.tasso_apprendimento()), "0");
    let contenuto2 = t("[+]  0\n[*]  Sigmoide; \n[#]  2, 1\n0.5 0.5\n---\n");
    let rete2 = ReteNeurale::deserializza(&contenuto2).unwrap();
    assert_eq!(testo(rete2.tasso_apprendimento()), "0");
}

#[test]
fn codice_sconosciuto_degrada_a_neutra() {
    let contenuto = t("[+]  0.1\n[*]  Boh; Sigmoide; \n[#]  2, 1\n0.5 0.5\n---\n");
    let rete = ReteNeurale::deserializza(&contenuto).unwrap();
    let sigle = rete.lista_funzioni_attivazioni();
    assert_eq!(testo(sigle[0].clone()), "Null");
    assert_eq!(testo(sigle[1].clone()), "Sigmoide");
    assert_eq!(
        testo(rete.funzione_attivazione(0)),
        "Nessua Funzione di Attivazione"
    );
}

#[test]
fn blocco_vuoto_respinto() {
    let contenuto = t("[+]  0.1\n[*]  Sigmoide; \n[#]  2, 1\n---\n");
    assert_eq!(
        ReteNeurale::deserializza(&contenuto).unwrap_err(),
        ErroreRete::BloccoVuoto
    );
}

#[test]
fn righe_disuguali_respinte() {
    let contenuto = t("[+]  0.1\n[*]  Sigmoide; \n[#]  2, 2\n0.5 0.5\n0.5\n---\n");
    assert_eq!(
        ReteNeurale::deserializza(&contenuto).unwrap_err(),
        ErroreRete::RigheIrregolari
    );
}

#[test]
fn token_non_numerico_respinto() {
    let contenuto = t("[+]  0.1\n[*]  Sigmoide; \n[#]  2, 1\n0.5 abc\n---\n");
    assert_eq!(
        ReteNeurale::deserializza(&contenuto).unwrap_err(),
        ErroreRete::TokenNonNumerico
    );
}

#[test]
fn tasso_non_numerico_respinto() {
    let contenuto = t("[+]  xyz\n[*]  Sigmoide; \n[#]  2, 1\n0.5 0.5\n---\n");
    assert_eq!(
        ReteNeurale::deserializza(&contenuto).unwrap_err(),
        ErroreRete::TokenNonNumerico
    );
}

#[test]
fn intestazione_monca_respinta() {
    let contenuto = t("[+] \n[*]  Sigmoide; \n[#]  2, 1\n0.5 0.5\n---\n");
    assert_eq!(
        ReteNeurale::deserializza(&contenuto).unwrap_err(),
        ErroreRete::IntestazioneIncompleta
    );
}

#[test]
fn topologia_guasta_respinta() {
    let contenuto = t("[+]  0.1\n[*]  Sigmoide; \n[#]  2, x\n0.5 0.5\n---\n");
    assert_eq!(
        ReteNeurale::deserializza(&contenuto).unwrap_err(),
        ErroreRete::TopologiaNonValida
    );
}

#[test]
fn forme_sbagliate_respinte() {
    let contenuto = t("[+]  0.1\n[*]  Sigmoide; \n[#]  2, 2\n0.5 0.5\n---\n");
    assert_eq!(
        ReteNeurale::deserializza(&contenuto).unwrap_err(),
        ErroreRete::DimensioniIncoerenti
    );
}

#[test]
fn attivazioni_mancanti_respinte() {
    let contenuto = t("[+]  0.1\n[#]  2, 1\n0.5 0.5\n---\n");
    assert_eq!(
        ReteNeurale::deserializza(&contenuto).unwrap_err(),
        ErroreRete::AttivazioniMancanti
    );
}

#[test]
fn parametro_con_perdita_guasto_respinto() {
    let contenuto = t("[+]  0.1\n[*]  LeakyReLU_x; \n[#]  2, 1\n0.5 0.5\n---\n");
    assert_eq!(
        ReteNeurale::deserializza(&contenuto).unwrap_err(),
        ErroreRete::TokenNonNumerico
    );
}

#[test]
fn ritorni_carrello_tollerati() {
    let contenuto = t("[+]  0.25\r\n[*]  Sigmoide; \r\n[#]  2, 1\r\n0.5 0.5\r\n---\r\n");
    let rete = ReteNeurale::deserializza(&contenuto).unwrap();
    assert_eq!(testo(rete.tasso_apprendimento()), "0.25");
    assert_eq!(rete.strati(), vec![2usize, 1usize]);
}

#[test]
fn righe_di_pesi_orfane_cadono() {
    let contenuto = t("[+]  0.1\n[*]  Sigmoide; \n[#]  2, 1\n0.5 0.5\n---\n7 7\n");
    let rete = ReteNeurale::deserializza(&contenuto).unwrap();
    assert_eq!(
        testo(rete.serializza()),
        "[+]  0.1\n[*]  Sigmoide; \n[#]  2, 1\n0.5 0.5\n---\n"
    );
}

#[test]
fn valori_infiniti_e_non_numeri_accettati() {
    let contenuto = t("[+]  0.1\n[*]  Sigmoide; \n[#]  2, 1\ninf NaN\n---\n");
    let rete = ReteNeurale::deserializza(&contenuto).unwrap();
    assert_eq!(
        testo(rete.serializza()),
        "[+]  0.1\n[*]  Sigmoide; \n[#]  2, 1\ninf NaN\n---\n"
    );
}

#[test]
fn trasposizione_delle_righe_lette() {
    let righe = vec![
        vec![t("1"), t("2"), t("3")],
        vec![t("4"), t("5"), t("6")],
    ];
    let colonne = rete_neurale_mlp::codec::trasponi(&righe);
    assert_eq!(colonne.len(), 3);
    assert_eq!(colonne[0], vec![t("1"), t("4")]);
    assert_eq!(colonne[1], vec![t("2"), t("5")]);
    assert_eq!(colonne[2], vec![t("3"), t("6")]);
    assert_eq!(rete_neurale_mlp::codec::trasponi(&Vec::new()).len(), 0);
}
