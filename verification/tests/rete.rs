use rete_neurale_mlp::attivazione::FunzioneAttivazione;
use rete_neurale_mlp::errori::ErroreRete;
use rete_neurale_mlp::rete::Matrice;
use rete_neurale_mlp::rete::ReteNeurale;
use rete_neurale_mlp::rete::Strato;

fn t(s: &str) -> Vec<u8> {
    s.as_bytes().to_vec()
}

fn testo(v: Vec<u8>) -> String {
    String::from_utf8(v).unwrap()
}

#[test]
fn matrice_conta_le_caselle() {
    assert!(Matrice::nuova(2, 2, vec![t("1"), t("2"), t("3"), t("4")]).is_ok());
    assert_eq!(
        Matrice::nuova(2, 2, vec![t("1"), t("2"), t("3")]).unwrap_err(),
        ErroreRete::DimensioniIncoerenti
    );
    assert_eq!(
        Matrice::nuova(1, 2, vec![t("1"), t("x")]).unwrap_err(),
        ErroreRete::TokenNonNumerico
    );
}

#[test]
fn servono_almeno_due_strati() {
    let esito = ReteNeurale::nuova_rete_uniforme(
        vec![3],
        t("0.1"),
        FunzioneAttivazione::Sigmoide,
        vec![],
    );
    assert_eq!(esito.unwrap_err(), ErroreRete::StratiInsufficienti);
}

#[test]
fn forme_controllate_alla_costruzione() {
    let storta = Matrice::nuova(2, 2, vec![t("1"), t("2"), t("3"), t("4")]).unwrap();
    let esito = ReteNeurale::nuova_rete_uniforme(
        vec![2, 1],
        t("0.1"),
        FunzioneAttivazione::Sigmoide,
        vec![storta],
    );
    assert_eq!(esito.unwrap_err(), ErroreRete::DimensioniIncoerenti);
}

#[test]
fn il_primo_strato_diventa_neutro() {
    let m = Matrice::nuova(1, 2, vec![t("0.5"), t("0.5")]).unwrap();
    let strati = vec![
        Strato { neuroni: 2, funzione_attivazione: FunzioneAttivazione::Swish },
        Strato { neuroni: 1, funzione_attivazione: FunzioneAttivazione::Softplus },
    ];
    let rete = ReteNeurale::nuova(strati, t("0.1"), vec![m]).unwrap();
    let sigle = rete.lista_funzioni_attivazioni();
    assert_eq!(testo(sigle[0].clone()), "Null");
    assert_eq!(testo(sigle[1].clone()), "Softplus");
}

#[test]
fn accesso_ai_pesi_per_righe() {
    let m = Matrice::nuova(2, 2, vec![t("a1"), t("a2"), t("b1"), t("b2")]);
    assert!(m.is_err());
    let m = Matrice::nuova(2, 2, vec![t("1"), t("2"), t("3"), t("4")]).unwrap();
    let rete = ReteNeurale::nuova_rete_uniforme(
        vec![2, 2],
        t("0.1"),
        FunzioneAttivazione::Lineare,
        vec![m],
    )
    .unwrap();
    let pesi = rete.pesi_connessioni();
    assert_eq!(pesi.len(), 1);
    assert_eq!(pesi[0].len(), 2);
    assert_eq!(testo(pesi[0][0][0].clone()), "1");
    assert_eq!(testo(pesi[0][0][1].clone()), "3");
    assert_eq!(testo(pesi[0][1][0].clone()), "2");
    assert_eq!(testo(pesi[0][1][1].clone()), "4");
}

#[test]
fn aggiornamento_dei_pesi_di_uno_strato() {
    let m = Matrice::nuova(1, 2, vec![t("0.5"), t("0.5")]).unwrap();
    let mut rete = ReteNeurale::nuova_rete_uniforme(
        vec![2, 1],
        t("0.1"),
        FunzioneAttivazione::Sigmoide,
        vec![m],
    )
    .unwrap();
    let nuova = Matrice::nuova(1, 2, vec![t("0.7"), t("-0.7")]).unwrap();
    rete.imposta_pesi(0, nuova).unwrap();
    assert_eq!(
        testo(rete.serializza()),
        "[+]  0.1\n[*]  Sigmoide; \n[#]  2, 1\n0.7 -0.7\n---\n"
    );
    let storta = Matrice::nuova(2, 2, vec![t("1"), t("2"), t("3"), t("4")]).unwrap();
    assert_eq!(
        rete.imposta_pesi(0, storta).unwrap_err(),
        ErroreRete::DimensioniIncoerenti
    );
    let fuori = Matrice::nuova(1, 2, vec![t("1"), t("2")]).unwrap();
    assert_eq!(
        rete.imposta_pesi(5, fuori).unwrap_err(),
        ErroreRete::DimensioniIncoerenti
    );
    assert_eq!(
        testo(rete.serializza()),
        "[+]  0.1\n[*]  Sigmoide; \n[#]  2, 1\n0.7 -0.7\n---\n"
    );
}

#[test]
fn parametro_con_perdita_guasto_alla_costruzione() {
    let m = Matrice::nuova(1, 2, vec![t("0.5"), t("0.5")]).unwrap();
    let esito = ReteNeurale::nuova_rete_uniforme(
        vec![2, 1],
        t("0.1"),
        FunzioneAttivazione::LeakyReLU { alfa: t("zz") },
        vec![m],
    );
    assert_eq!(esito.unwrap_err(), ErroreRete::TokenNonNumerico);
}

#[test]
fn uniforme_e_lista_completa_scelgono_le_stesse_funzioni() {
    let pesi0 = vec![t("0.1"), t("0.2"), t("0.3"), t("0.4")];
    let pesi1 = vec![t("0.5"), t("0.6")];
    let uniforme = ReteNeurale::nuova_rete_uniforme(
        vec![2, 2, 1],
        t("0.1"),
        FunzioneAttivazione::Sigmoide,
        vec![
            Matrice::nuova(2, 2, pesi0.clone()).unwrap(),
            Matrice::nuova(1, 2, pesi1.clone()).unwrap(),
        ],
    )
    .unwrap();
    let completa = ReteNeurale::nuova(
        vec![
            Strato { neuroni: 2, funzione_attivazione: FunzioneAttivazione::Nessuna },
            Strato { neuroni: 2, funzione_attivazione: FunzioneAttivazione::Sigmoide },
            Strato { neuroni: 1, funzione_attivazione: FunzioneAttivazione::Sigmoide },
        ],
        t("0.1"),
        vec![
            Matrice::nuova(2, 2, pesi0).unwrap(),
            Matrice::nuova(1, 2, pesi1).unwrap(),
        ],
    )
    .unwrap();
    let sigle_u = uniforme.lista_funzioni_attivazioni();
    let sigle_c = completa.lista_funzioni_attivazioni();
    for stadio in 1..=2usize {
        let iu = rete_neurale_mlp::indici::indice_attivazione_avanti(sigle_u.len(), stadio);
        let ic = rete_neurale_mlp::indici::indice_attivazione_avanti(sigle_c.len(), stadio);
        assert_eq!(testo(sigle_u[iu].clone()), "Sigmoide");
        assert_eq!(testo(sigle_c[ic].clone()), "Sigmoide");
    }
    let indietro_u = rete_neurale_mlp::indici::indici_attivazione_indietro(sigle_u.len(), 2);
    let indietro_c = rete_neurale_mlp::indici::indici_attivazione_indietro(sigle_c.len(), 2);
    for stadio in 0..2usize {
        assert_eq!(testo(sigle_u[indietro_u[stadio]].clone()), "Sigmoide");
        assert_eq!(testo(sigle_c[indietro_c[stadio]].clone()), "Sigmoide");
    }
}
