use rete_neurale_mlp::indici::indice_attivazione_avanti;
use rete_neurale_mlp::indici::indici_attivazione_indietro;
use rete_neurale_mlp::indici::prossimo_indice_indietro;

#[test]
fn con_una_sola_funzione_indice_sempre_zero() {
    for stadio in 1..10usize {
        assert_eq!(indice_attivazione_avanti(1, stadio), 0);
    }
    assert_eq!(indici_attivazione_indietro(1, 5), vec![0, 0, 0, 0, 0]);
}

#[test]
fn avanti_cicla_saltando_la_posizione_zero() {
    assert_eq!(indice_attivazione_avanti(3, 1), 1);
    assert_eq!(indice_attivazione_avanti(3, 2), 2);
    assert_eq!(indice_attivazione_avanti(3, 3), 1);
    assert_eq!(indice_attivazione_avanti(3, 4), 2);
    assert_eq!(indice_attivazione_avanti(4, 1), 1);
    assert_eq!(indice_attivazione_avanti(4, 2), 2);
    assert_eq!(indice_attivazione_avanti(4, 3), 3);
    assert_eq!(indice_attivazione_avanti(4, 4), 1);
}

#[test]
fn indietro_parte_dall_ultima_e_risale_ciclando() {
    assert_eq!(indici_attivazione_indietro(3, 2), vec![1, 2]);
    assert_eq!(indici_attivazione_indietro(4, 5), vec![2, 3, 1, 2, 3]);
    assert_eq!(indici_attivazione_indietro(2, 3), vec![1, 1, 1]);
    assert_eq!(indici_attivazione_indietro(3, 0), Vec::<usize>::new());
}

#[test]
fn passo_indietro_non_tocca_la_posizione_zero() {
    assert_eq!(prossimo_indice_indietro(4, 3), 2);
    assert_eq!(prossimo_indice_indietro(4, 2), 1);
    assert_eq!(prossimo_indice_indietro(4, 1), 3);
    assert_eq!(prossimo_indice_indietro(1, 0), 0);
}

#[test]
fn il_caso_canonico_rispecchia_gli_stadi() {
    let quanti_strati = 3usize;
    let n_funzioni = quanti_strati + 1;
    for stadio in 1..=quanti_strati {
        assert_eq!(indice_attivazione_avanti(n_funzioni, stadio), stadio);
    }
    assert_eq!(indici_attivazione_indietro(n_funzioni, quanti_strati), vec![1, 2, 3]);
}
