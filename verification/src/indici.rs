//! La regola ciclica di scelta delle funzioni di attivazione: la posizione
//! zero della lista e' riservata allo stadio d'ingresso e non viene mai
//! ripresa; con una lista di un solo elemento quella funzione vale per
//! tutti gli stadi.
use crate::attivazione::FunzioneVista;
use vstd::prelude::*;

verus! {

/// Indice della funzione di attivazione per lo stadio dato, contando gli
/// stadi da uno, nella passata in avanti: con una sola funzione l'indice e'
/// sempre zero; altrimenti gli stadi percorrono ciclicamente le posizioni
/// da uno in su, senza mai tornare alla posizione zero.
pub open spec fn indice_avanti(n_funzioni: int, stadio: int) -> int {
    if n_funzioni == 1 {
        0
    } else {
        1 + ((stadio - 1) % (n_funzioni - 1))
    }
}

/// Passo all'indietro dell'indice ciclico: scende di uno e dalla posizione
/// uno risale all'ultima, saltando sempre la posizione zero.
pub open spec fn passo_indietro(n_funzioni: int, indice: int) -> int {
    if n_funzioni == 1 {
        0
    } else if indice > 1 {
        indice - 1
    } else {
        n_funzioni - 1
    }
}

/// Indice della funzione di attivazione per lo stadio dato nella passata
/// all'indietro: l'ultimo stadio parte dall'ultima posizione della lista e
/// ogni stadio precedente fa un passo all'indietro.
pub open spec fn indice_indietro(n_funzioni: int, quanti_strati: int, stadio: int) -> int
    decreases quanti_strati - stadio,
{
    if stadio >= quanti_strati {
        if n_funzioni == 1 {
            0
        } else {
            n_funzioni - 1
        }
    } else {
        passo_indietro(n_funzioni, indice_indietro(n_funzioni, quanti_strati, stadio + 1))
    }
}

/// L'indice all'indietro resta fra uno e l'ultima posizione quando le
/// funzioni sono piu' d'una, e a zero con una sola.
pub proof fn lemma_limiti_indietro(n_funzioni: int, quanti_strati: int, stadio: int)
    requires
        n_funzioni >= 1,
    ensures
        n_funzioni == 1 ==> indice_indietro(n_funzioni, quanti_strati, stadio) == 0,
        n_funzioni >= 2 ==> 1 <= indice_indietro(n_funzioni, quanti_strati, stadio) < n_funzioni,
    decreases quanti_strati - stadio,
{
    if stadio < quanti_strati {
        lemma_limiti_indietro(n_funzioni, quanti_strati, stadio + 1);
    }
}

/// Indice per lo stadio dato nella passata in avanti.
pub fn indice_attivazione_avanti(n_funzioni: usize, stadio: usize) -> (r: usize)
    requires
        n_funzioni >= 1,
        stadio >= 1,
    ensures
        r == indice_avanti(n_funzioni as int, stadio as int),
        r < n_funzioni,
        n_funzioni > 1 ==> 1 <= r,
{
    if n_funzioni == 1 {
        0
    } else {
        1 + ((stadio - 1) % (n_funzioni - 1))
    }
}

/// Passo all'indietro dell'indice ciclico.
pub fn prossimo_indice_indietro(n_funzioni: usize, indice: usize) -> (r: usize)
    requires
        n_funzioni >= 1,
    ensures
        r == passo_indietro(n_funzioni as int, indice as int),
{
    if n_funzioni == 1 {
        0
    } else if indice > 1 {
        indice - 1
    } else {
        n_funzioni - 1
    }
}

/// Gli indici della passata all'indietro, per gli stadi da uno al numero
/// degli strati, in quest'ordine.
pub fn indici_attivazione_indietro(n_funzioni: usize, quanti_strati: usize) -> (r: Vec<usize>)
    requires
        n_funzioni >= 1,
    ensures
        r@.len() == quanti_strati,
        forall|s: int|
            1 <= s <= quanti_strati ==> r@[s - 1] == indice_indietro(
                n_funzioni as int,
                quanti_strati as int,
                s,
            ),
        forall|s: int| 0 <= s < quanti_strati ==> r@[s] < n_funzioni,
    decreases quanti_strati,
{
    let mut r: Vec<usize> = Vec::new();
    let mut riempito: usize = 0;
    while riempito < quanti_strati
        invariant
            riempito <= quanti_strati,
            r@.len() == riempito,
        decreases quanti_strati - riempito,
    {
        r.push(0);
        riempito += 1;
    }
    if quanti_strati == 0 {
        return r;
    }
    let mut stadio: usize = quanti_strati;
    let mut indice: usize = if n_funzioni == 1 {
        0
    } else {
        n_funzioni - 1
    };
    while stadio >= 1
        invariant
            n_funzioni >= 1,
            stadio <= quanti_strati,
            r@.len() == quanti_strati,
            stadio >= 1 ==> indice == indice_indietro(
                n_funzioni as int,
                quanti_strati as int,
                stadio as int,
            ),
            stadio >= 1 ==> indice < n_funzioni,
            forall|s: int|
                stadio < s <= quanti_strati ==> r@[s - 1] == indice_indietro(
                    n_funzioni as int,
                    quanti_strati as int,
                    s,
                ),
            forall|s: int| stadio <= s < quanti_strati ==> r@[s] < n_funzioni,
        decreases stadio,
    {
        r.set(stadio - 1, indice);
        indice = prossimo_indice_indietro(n_funzioni, indice);
        proof {
            if stadio >= 2 {
                assert(indice_indietro(
                    n_funzioni as int,
                    quanti_strati as int,
                    stadio - 1,
                ) == passo_indietro(
                    n_funzioni as int,
                    indice_indietro(n_funzioni as int, quanti_strati as int, stadio as int),
                ));
            }
        }
        stadio -= 1;
    }
    r
}

/// Nel caso pieno, con una funzione in lista per ogni stadio compreso
/// l'ingresso, la passata in avanti e quella all'indietro scelgono per lo
/// stadio `s` proprio la posizione `s` della lista: le due passate si
/// rispecchiano.
pub proof fn lemma_specchio_canonico(quanti_strati: int, stadio: int)
    requires
        quanti_strati >= 1,
        1 <= stadio <= quanti_strati,
    ensures
        indice_avanti(quanti_strati + 1, stadio) == stadio,
        indice_indietro(quanti_strati + 1, quanti_strati, stadio) == stadio,
    decreases quanti_strati - stadio,
{
    let n = quanti_strati + 1;
    assert((stadio - 1) % (n - 1) == stadio - 1) by (nonlinear_arith)
        requires
            0 <= stadio - 1 < n - 1,
    ;
    if stadio < quanti_strati {
        lemma_specchio_canonico(quanti_strati, stadio + 1);
    }
}

/// Una rete uniforme, con una sola funzione di attivazione in lista, e una
/// rete la cui lista completa porta quella stessa funzione su ogni stadio
/// dopo l'ingresso scelgono la stessa funzione a ogni stadio, tanto nella
/// passata in avanti quanto in quella all'indietro.
pub proof fn lemma_equivalenza_uniforme(
    funzioni: Seq<FunzioneVista>,
    unica: FunzioneVista,
    quanti_strati: int,
    stadio: int,
)
    requires
        funzioni.len() >= 2,
        forall|k: int| 1 <= k < funzioni.len() ==> funzioni[k] == unica,
        1 <= stadio,
    ensures
        funzioni[indice_avanti(funzioni.len() as int, stadio)] == unica,
        seq![unica][indice_avanti(1, stadio)] == unica,
        stadio <= quanti_strati ==> funzioni[indice_indietro(
            funzioni.len() as int,
            quanti_strati,
            stadio,
        )] == unica,
        stadio <= quanti_strati ==> seq![unica][indice_indietro(1, quanti_strati, stadio)]
            == unica,
{
    let n = funzioni.len() as int;
    assert(0 <= (stadio - 1) % (n - 1) < n - 1) by (nonlinear_arith)
        requires
            n >= 2,
            stadio >= 1,
    ;
    lemma_limiti_indietro(n, quanti_strati, stadio);
    lemma_limiti_indietro(1, quanti_strati, stadio);
}

} // verus!
