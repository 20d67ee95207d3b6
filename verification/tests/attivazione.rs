use rete_neurale_mlp::attivazione::FunzioneAttivazione;
use rete_neurale_mlp::attivazione::LeakyReLU;
use rete_neurale_mlp::attivazione::Lineare;
use rete_neurale_mlp::attivazione::Nessuna;
use rete_neurale_mlp::attivazione::ReLU;
use rete_neurale_mlp::attivazione::Sigmoide;
use rete_neurale_mlp::attivazione::Softplus;
use rete_neurale_mlp::attivazione::Swish;
use rete_neurale_mlp::attivazione::Tanh;
use rete_neurale_mlp::errori::ErroreRete;

fn t(s: &str) -> Vec<u8> {
    s.as_bytes().to_vec()
}

fn testo(v: Vec<u8>) -> String {
    String::from_utf8(v).unwrap()
}

#[test]
fn nomi_e_sigle_delle_funzioni() {
    assert_eq!(testo(Sigmoide.nome()), "Sigmoide");
    assert_eq!(testo(Sigmoide.sigla()), "Sigmoide");
    assert_eq!(testo(ReLU.nome()), "Rectified Linear Unit");
    assert_eq!(testo(ReLU.sigla()), "ReLU");
    assert_eq!(testo(Tanh.nome()), "Tangente Iperbolica");
    assert_eq!(testo(Tanh.sigla()), "Tanh");
    assert_eq!(testo(Softplus.nome()), "Softplus");
    assert_eq!(testo(Softplus.sigla()), "Softplus");
    assert_eq!(testo(Swish.nome()), "Swish");
    assert_eq!(testo(Swish.sigla()), "Swish");
    assert_eq!(testo(Nessuna.nome()), "Nessua Funzione di Attivazione");
    assert_eq!(testo(Nessuna.sigla()), "Null");
    assert_eq!(testo(Lineare.nome()), "Lineare");
    assert_eq!(testo(Lineare.sigla()), "Lineare");
    let con_perdita = LeakyReLU { alfa: t("0.05") };
    assert_eq!(testo(con_perdita.nome()), "Leaky Rectified Linear Unit");
    assert_eq!(testo(con_perdita.sigla()), "LeakyReLU");
}

#[test]
fn il_codice_porta_il_parametro() {
    let f = FunzioneAttivazione::LeakyReLU { alfa: t("0.05") };
    assert_eq!(testo(f.codice()), "LeakyReLU_0.05");
    assert_eq!(testo(f.sigla()), "LeakyReLU");
    assert_eq!(testo(f.alfa()), "0.05");
    assert_eq!(testo(FunzioneAttivazione::Sigmoide.codice()), "Sigmoide");
    assert_eq!(testo(FunzioneAttivazione::Sigmoide.alfa()), "0");
}

#[test]
fn ogni_sigla_torna_alla_sua_funzione() {
    let giri = [
        ("Sigmoide", "Sigmoide"),
        ("ReLU", "ReLU"),
        ("Tanh", "Tanh"),
        ("Softplus", "Softplus"),
        ("Swish", "Swish"),
        ("Lineare", "Lineare"),
        ("Null", "Null"),
        ("LeakyReLU_0.05", "LeakyReLU"),
    ];
    for (codice, sigla_attesa) in giri.iter() {
        let f = FunzioneAttivazione::analizza_codice(&t(codice)).unwrap();
        assert_eq!(testo(f.sigla()), *sigla_attesa, "codice {:?}", codice);
    }
}

#[test]
fn le_sigle_sconosciute_degradano_alla_neutra() {
    for codice in ["Boh", "sigmoide", "LeakyReLU", "relu", "X"] {
        let f = FunzioneAttivazione::analizza_codice(&t(codice)).unwrap();
        assert_eq!(testo(f.sigla()), "Null", "codice {:?}", codice);
    }
}

#[test]
fn il_parametro_guasto_e_un_errore() {
    assert_eq!(
        FunzioneAttivazione::analizza_codice(&t("LeakyReLU_abc")).unwrap_err(),
        ErroreRete::TokenNonNumerico
    );
    assert_eq!(
        FunzioneAttivazione::analizza_codice(&t("LeakyReLU_")).unwrap_err(),
        ErroreRete::TokenNonNumerico
    );
}
