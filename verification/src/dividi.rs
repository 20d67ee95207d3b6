//! Scomposizione e ricomposizione del testo in byte: righe, pezzi separati
//! da un byte o da una coppia di byte, parole fra spazi bianchi, rifilatura.
use crate::testo::bianco;
use vstd::prelude::*;

verus! {

/// Le viste di una sequenza di vettori di byte.
pub open spec fn viste(s: Seq<Vec<u8>>) -> Seq<Seq<u8>> {
    s.map_values(|v: Vec<u8>| v@)
}

/// Prima posizione del byte `b` nella sequenza, o la lunghezza se assente.
pub open spec fn posizione(s: Seq<u8>, b: u8) -> int
    decreases s.len(),
{
    if s.len() == 0 {
        0
    } else if s[0] == b {
        0
    } else {
        1 + posizione(s.skip(1), b)
    }
}

pub proof fn lemma_posizione(s: Seq<u8>, b: u8)
    ensures
        0 <= posizione(s, b) <= s.len(),
        posizione(s, b) < s.len() ==> s[posizione(s, b)] == b,
        forall|j: int| 0 <= j < posizione(s, b) ==> s[j] != b,
    decreases s.len(),
{
    if s.len() == 0 {
    } else if s[0] == b {
    } else {
        lemma_posizione(s.skip(1), b);
        let p = posizione(s, b);
        assert forall|j: int| 0 <= j < p implies s[j] != b by {
            if j >= 1 {
                assert(s.skip(1)[j - 1] != b);
            }
        }
        if p < s.len() {
            assert(s[p] == s.skip(1)[p - 1]);
        }
    }
}

pub proof fn lemma_posizione_di(s: Seq<u8>, b: u8, i: int)
    requires
        0 <= i <= s.len(),
        forall|j: int| 0 <= j < i ==> s[j] != b,
        i == s.len() || s[i] == b,
    ensures
        posizione(s, b) == i,
{
    lemma_posizione(s, b);
    let p = posizione(s, b);
    if p < i {
        assert(s[p] != b);
        assert(false);
    } else if p > i {
        assert(i < s.len());
        assert(s[i] != b);
        assert(false);
    }
}

/// Prima posizione della coppia di byte adiacenti, o la lunghezza se assente.
pub open spec fn posizione_coppia(s: Seq<u8>, b0: u8, b1: u8) -> int
    decreases s.len(),
{
    if s.len() < 2 {
        s.len() as int
    } else if s[0] == b0 && s[1] == b1 {
        0
    } else {
        1 + posizione_coppia(s.skip(1), b0, b1)
    }
}

pub proof fn lemma_posizione_coppia(s: Seq<u8>, b0: u8, b1: u8)
    ensures
        0 <= posizione_coppia(s, b0, b1) <= s.len(),
        posizione_coppia(s, b0, b1) < s.len() ==> posizione_coppia(s, b0, b1) + 2 <= s.len() && s[
            posizione_coppia(s, b0, b1)
        ] == b0 && s[posizione_coppia(s, b0, b1) + 1] == b1,
        forall|j: int|
            0 <= j < posizione_coppia(s, b0, b1) && j + 1 < s.len() ==> !(#[trigger] s[j] == b0 && s[j + 1]
                == b1),
    decreases s.len(),
{
    if s.len() < 2 {
    } else if s[0] == b0 && s[1] == b1 {
    } else {
        lemma_posizione_coppia(s.skip(1), b0, b1);
        let p = posizione_coppia(s, b0, b1);
        assert forall|j: int| 0 <= j < p && j + 1 < s.len() implies !(#[trigger] s[j] == b0 && s[j
            + 1] == b1) by {
            if j >= 1 {
                assert(s.skip(1)[j - 1] == s[j]);
                assert(s.skip(1)[j] == s[j + 1]);
            }
        }
        if p < s.len() {
            assert(s[p] == s.skip(1)[p - 1]);
            assert(s[p + 1] == s.skip(1)[p]);
        }
    }
}

pub proof fn lemma_posizione_coppia_di(s: Seq<u8>, b0: u8, b1: u8, i: int)
    requires
        0 <= i <= s.len(),
        forall|j: int| 0 <= j < i && j + 1 < s.len() ==> !(#[trigger] s[j] == b0 && s[j + 1] == b1),
        i == s.len() || (i + 1 < s.len() && s[i] == b0 && s[i + 1] == b1),
    ensures
        posizione_coppia(s, b0, b1) == i,
{
    lemma_posizione_coppia(s, b0, b1);
    let p = posizione_coppia(s, b0, b1);
    if p < i {
        assert(!(s[p] == b0 && s[p + 1] == b1));
        assert(false);
    } else if p > i {
        assert(i < s.len());
        assert(!(s[i] == b0 && s[i + 1] == b1));
        assert(false);
    }
}

/// Prima posizione di uno spazio bianco, o la lunghezza se assente.
pub open spec fn posizione_bianca(s: Seq<u8>) -> int
    decreases s.len(),
{
    if s.len() == 0 {
        0
    } else if bianco(s[0]) {
        0
    } else {
        1 + posizione_bianca(s.skip(1))
    }
}

pub proof fn lemma_posizione_bianca(s: Seq<u8>)
    ensures
        0 <= posizione_bianca(s) <= s.len(),
        posizione_bianca(s) < s.len() ==> bianco(s[posizione_bianca(s)]),
        forall|j: int| 0 <= j < posizione_bianca(s) ==> !bianco(s[j]),
    decreases s.len(),
{
    if s.len() == 0 {
    } else if bianco(s[0]) {
    } else {
        lemma_posizione_bianca(s.skip(1));
        let p = posizione_bianca(s);
        assert forall|j: int| 0 <= j < p implies !bianco(s[j]) by {
            if j >= 1 {
                assert(!bianco(s.skip(1)[j - 1]));
            }
        }
        if p < s.len() {
            assert(s[p] == s.skip(1)[p - 1]);
        }
    }
}

pub proof fn lemma_posizione_bianca_di(s: Seq<u8>, i: int)
    requires
        0 <= i <= s.len(),
        forall|j: int| 0 <= j < i ==> !bianco(s[j]),
        i == s.len() || bianco(s[i]),
    ensures
        posizione_bianca(s) == i,
{
    lemma_posizione_bianca(s);
    let p = posizione_bianca(s);
    if p < i {
        assert(!bianco(s[p]));
        assert(false);
    } else if p > i {
        assert(i < s.len());
        assert(!bianco(s[i]));
        assert(false);
    }
}

/// Pezzi della sequenza separati dal byte `b`, pezzi vuoti compresi.
pub open spec fn divisione(s: Seq<u8>, b: u8) -> Seq<Seq<u8>>
    decreases s.len(),
{
    let p = posizione(s, b);
    if 0 <= p < s.len() {
        seq![s.take(p)] + divisione(s.skip(p + 1), b)
    } else {
        seq![s]
    }
}

/// Pezzi della sequenza separati dalla coppia di byte, pezzi vuoti compresi.
pub open spec fn divisione_coppia(s: Seq<u8>, b0: u8, b1: u8) -> Seq<Seq<u8>>
    decreases s.len(),
{
    let p = posizione_coppia(s, b0, b1);
    if 0 <= p && p + 2 <= s.len() {
        seq![s.take(p)] + divisione_coppia(s.skip(p + 2), b0, b1)
    } else {
        seq![s]
    }
}

/// Parole della sequenza: tratti massimali privi di spazi bianchi.
pub open spec fn parole(s: Seq<u8>) -> Seq<Seq<u8>>
    decreases s.len(),
{
    if s.len() == 0 {
        Seq::empty()
    } else if bianco(s[0]) {
        parole(s.skip(1))
    } else {
        let p = posizione_bianca(s);
        if 1 <= p <= s.len() {
            seq![s.take(p)] + parole(s.skip(p))
        } else {
            seq![s]
        }
    }
}

/// La riga senza l'eventuale ritorno carrello finale.
pub open spec fn togli_cr(s: Seq<u8>) -> Seq<u8> {
    if s.len() > 0 && s.last() == 13 {
        s.drop_last()
    } else {
        s
    }
}

/// Le righe del testo: pezzi fra gli a capo, senza ritorno carrello finale,
/// senza riga vuota finale dopo l'ultimo a capo.
pub open spec fn righe(s: Seq<u8>) -> Seq<Seq<u8>>
    decreases s.len(),
{
    if s.len() == 0 {
        Seq::empty()
    } else {
        let p = posizione(s, 10);
        if 0 <= p < s.len() {
            seq![togli_cr(s.take(p))] + righe(s.skip(p + 1))
        } else {
            seq![togli_cr(s)]
        }
    }
}

/// La sequenza senza spazi bianchi iniziali.
pub open spec fn rifila_testa(s: Seq<u8>) -> Seq<u8>
    decreases s.len(),
{
    if s.len() > 0 && bianco(s[0]) {
        rifila_testa(s.skip(1))
    } else {
        s
    }
}

/// La sequenza senza spazi bianchi finali.
pub open spec fn rifila_coda(s: Seq<u8>) -> Seq<u8>
    decreases s.len(),
{
    if s.len() > 0 && bianco(s.last()) {
        rifila_coda(s.drop_last())
    } else {
        s
    }
}

/// La sequenza senza spazi bianchi iniziali e finali.
pub open spec fn rifila(s: Seq<u8>) -> Seq<u8> {
    rifila_coda(rifila_testa(s))
}

/// La sequenza comincia con il prefisso dato.
pub open spec fn inizia_con(s: Seq<u8>, prefisso: Seq<u8>) -> bool {
    s.len() >= prefisso.len() && s.take(prefisso.len() as int) == prefisso
}

/// Copia della porzione `[da, a)` del vettore.
pub fn sotto_vettore(t: &Vec<u8>, da: usize, a: usize) -> (r: Vec<u8>)
    requires
        da <= a <= t.len(),
    ensures
        r@ == t@.subrange(da as int, a as int),
{
    let mut r: Vec<u8> = Vec::new();
    let mut i: usize = da;
    while i < a
        invariant
            da <= i <= a <= t.len(),
            r@.len() == i - da,
            forall|j: int| 0 <= j < r@.len() ==> r@[j] == t@[da + j],
        decreases a - i,
    {
        r.push(t[i]);
        i += 1;
    }
    assert(r@ =~= t@.subrange(da as int, a as int));
    r
}

/// Il vettore comincia con il prefisso dato.
pub fn inizia_con_esegui(t: &Vec<u8>, prefisso: &Vec<u8>) -> (r: bool)
    ensures
        r == inizia_con(t@, prefisso@),
{
    if t.len() < prefisso.len() {
        return false;
    }
    let mut i: usize = 0;
    while i < prefisso.len()
        invariant
            i <= prefisso.len() <= t.len(),
            forall|j: int| 0 <= j < i ==> t@[j] == prefisso@[j],
        decreases prefisso.len() - i,
    {
        if t[i] != prefisso[i] {
            assert(t@.take(prefisso@.len() as int)[i as int] != prefisso@[i as int]);
            return false;
        }
        i += 1;
    }
    assert(t@.take(prefisso@.len() as int) =~= prefisso@);
    true
}

/// Divide il vettore sul byte `b`, pezzi vuoti compresi.
pub fn dividi_byte(t: &Vec<u8>, b: u8) -> (r: Vec<Vec<u8>>)
    ensures
        viste(r@) == divisione(t@, b),
{
    let mut r: Vec<Vec<u8>> = Vec::new();
    let mut pos: usize = 0;
    proof {
        assert(t@.skip(0) =~= t@);
        assert(divisione(t@, b) =~= viste(r@) + divisione(t@.skip(0), b));
    }
    loop
        invariant_except_break
            pos <= t.len(),
            divisione(t@, b) == viste(r@) + divisione(t@.skip(pos as int), b),
        ensures
            viste(r@) == divisione(t@, b),
        decreases t.len() - pos + 1,
    {
        let mut fine: usize = pos;
        while fine < t.len() && t[fine] != b
            invariant
                pos <= fine <= t.len(),
                forall|j: int| pos <= j < fine ==> t@[j] != b,
            decreases t.len() - fine,
        {
            fine += 1;
        }
        let pezzo = sotto_vettore(t, pos, fine);
        let ghost resto = t@.skip(pos as int);
        proof {
            assert forall|j: int| 0 <= j < fine - pos implies resto[j] != b by {
                assert(resto[j] == t@[pos + j]);
            }
            if fine < t.len() {
                assert(resto[fine - pos] == t@[fine as int]);
            }
            lemma_posizione_di(resto, b, fine - pos);
            assert(resto.take(fine - pos) =~= t@.subrange(pos as int, fine as int));
        }
        r.push(pezzo);
        proof {
            assert(viste(r@) =~= viste(r@.drop_last()) + seq![pezzo@]);
        }
        if fine == t.len() {
            proof {
                assert(divisione(resto, b) == seq![resto]);
                assert(resto =~= pezzo@);
                assert(viste(r@) =~= divisione(t@, b));
            }
            break;
        }
        proof {
            assert(divisione(resto, b) == seq![resto.take(fine - pos)] + divisione(
                resto.skip(fine - pos + 1),
                b,
            ));
            assert(resto.skip(fine - pos + 1) =~= t@.skip(fine + 1 as int));
            assert(divisione(t@, b) =~= viste(r@) + divisione(t@.skip(fine + 1 as int), b));
        }
        pos = fine + 1;
    }
    r
}

/// Divide il vettore sulla coppia di byte adiacenti, pezzi vuoti compresi.
pub fn dividi_coppia(t: &Vec<u8>, b0: u8, b1: u8) -> (r: Vec<Vec<u8>>)
    ensures
        viste(r@) == divisione_coppia(t@, b0, b1),
{
    let mut r: Vec<Vec<u8>> = Vec::new();
    let mut pos: usize = 0;
    proof {
        assert(t@.skip(0) =~= t@);
        assert(divisione_coppia(t@, b0, b1) =~= viste(r@) + divisione_coppia(t@.skip(0), b0, b1));
    }
    loop
        invariant_except_break
            pos <= t.len(),
            divisione_coppia(t@, b0, b1) == viste(r@) + divisione_coppia(
                t@.skip(pos as int),
                b0,
                b1,
            ),
        ensures
            viste(r@) == divisione_coppia(t@, b0, b1),
        decreases t.len() - pos + 1,
    {
        let mut fine: usize = pos;
        while fine < t.len() && fine + 1 < t.len() && !(t[fine] == b0 && t[fine + 1] == b1)
            invariant
                pos <= fine,
                fine <= t.len(),
                forall|j: int|
                    pos <= j < fine && j + 1 < t.len() ==> !(#[trigger] t@[j] == b0 && t@[j + 1]
                        == b1),
            decreases t.len() - fine,
        {
            fine += 1;
        }
        let ghost resto = t@.skip(pos as int);
        if fine < t.len() && fine + 1 < t.len() {
            let pezzo = sotto_vettore(t, pos, fine);
            proof {
                assert forall|j: int|
                    0 <= j < fine - pos && j + 1 < resto.len() implies !(#[trigger] resto[j] == b0
                    && resto[j + 1] == b1) by {
                    assert(resto[j] == t@[pos + j]);
                    assert(resto[j + 1] == t@[pos + j + 1]);
                }
                assert(resto[fine - pos] == t@[fine as int]);
                assert(resto[fine - pos + 1] == t@[fine + 1 as int]);
                lemma_posizione_coppia_di(resto, b0, b1, fine - pos);
                assert(resto.take(fine - pos) =~= t@.subrange(pos as int, fine as int));
            }
            r.push(pezzo);
            proof {
                assert(viste(r@) =~= viste(r@.drop_last()) + seq![pezzo@]);
                assert(divisione_coppia(resto, b0, b1) == seq![resto.take(fine - pos)]
                    + divisione_coppia(resto.skip(fine - pos + 2), b0, b1));
                assert(resto.skip(fine - pos + 2) =~= t@.skip(fine + 2 as int));
                assert(divisione_coppia(t@, b0, b1) =~= viste(r@) + divisione_coppia(
                    t@.skip(fine + 2 as int),
                    b0,
                    b1,
                ));
            }
            pos = fine + 2;
        } else {
            let pezzo = sotto_vettore(t, pos, t.len());
            proof {
                assert forall|j: int|
                    0 <= j < resto.len() && j + 1 < resto.len() implies !(#[trigger] resto[j] == b0
                    && resto[j + 1] == b1) by {
                    assert(resto[j] == t@[pos + j]);
                    assert(resto[j + 1] == t@[pos + j + 1]);
                    assert(pos + j < fine || pos + j + 1 >= t.len());
                }
                lemma_posizione_coppia_di(resto, b0, b1, resto.len() as int);
                assert(divisione_coppia(resto, b0, b1) == seq![resto]);
                assert(resto =~= t@.subrange(pos as int, t.len() as int));
            }
            r.push(pezzo);
            proof {
                assert(viste(r@) =~= viste(r@.drop_last()) + seq![pezzo@]);
                assert(viste(r@) =~= divisione_coppia(t@, b0, b1));
            }
            break;
        }
    }
    r
}

/// Le parole del vettore, fra spazi bianchi.
pub fn parole_di(t: &Vec<u8>) -> (r: Vec<Vec<u8>>)
    ensures
        viste(r@) == parole(t@),
{
    let mut r: Vec<Vec<u8>> = Vec::new();
    let mut pos: usize = 0;
    proof {
        assert(t@.skip(0) =~= t@);
        assert(parole(t@) =~= viste(r@) + parole(t@.skip(0)));
    }
    while pos < t.len()
        invariant
            pos <= t.len(),
            parole(t@) == viste(r@) + parole(t@.skip(pos as int)),
        decreases t.len() - pos,
    {
        let b = t[pos];
        let ghost resto = t@.skip(pos as int);
        if b == (' ' as u8) || (9 <= b && b <= 13) {
            proof {
                assert(bianco(resto[0]));
                assert(resto.skip(1) =~= t@.skip(pos + 1 as int));
            }
            pos += 1;
        } else {
            let mut fine: usize = pos + 1;
            while fine < t.len() && !(t[fine] == (' ' as u8) || (9 <= t[fine] && t[fine] <= 13))
                invariant
                    pos < fine <= t.len(),
                    forall|j: int| pos <= j < fine ==> !bianco(t@[j]),
                    !bianco(t@[pos as int]),
                decreases t.len() - fine,
            {
                fine += 1;
            }
            let pezzo = sotto_vettore(t, pos, fine);
            proof {
                assert forall|j: int| 0 <= j < fine - pos implies !bianco(resto[j]) by {
                    assert(resto[j] == t@[pos + j]);
                }
                if fine < t.len() {
                    assert(resto[fine - pos] == t@[fine as int]);
                }
                lemma_posizione_bianca_di(resto, fine - pos);
                assert(resto.take(fine - pos) =~= t@.subrange(pos as int, fine as int));
                assert(parole(resto) == seq![resto.take(fine - pos)] + parole(
                    resto.skip(fine - pos),
                ));
                assert(resto.skip(fine - pos) =~= t@.skip(fine as int));
            }
            r.push(pezzo);
            proof {
                assert(viste(r@) =~= viste(r@.drop_last()) + seq![pezzo@]);
                assert(parole(t@) =~= viste(r@) + parole(t@.skip(fine as int)));
            }
            pos = fine;
        }
    }
    proof {
        assert(t@.skip(pos as int) =~= Seq::<u8>::empty());
        assert(parole(t@) =~= viste(r@));
    }
    r
}

/// Le righe del vettore di testo.
pub fn dividi_righe(t: &Vec<u8>) -> (r: Vec<Vec<u8>>)
    ensures
        viste(r@) == righe(t@),
{
    let mut r: Vec<Vec<u8>> = Vec::new();
    let mut pos: usize = 0;
    proof {
        assert(t@.skip(0) =~= t@);
        assert(righe(t@) =~= viste(r@) + righe(t@.skip(0)));
    }
    while pos < t.len()
        invariant
            pos <= t.len(),
            righe(t@) == viste(r@) + righe(t@.skip(pos as int)),
        decreases t.len() - pos,
    {
        let mut fine: usize = pos;
        while fine < t.len() && t[fine] != 10
            invariant
                pos <= fine <= t.len(),
                forall|j: int| pos <= j < fine ==> t@[j] != 10,
            decreases t.len() - fine,
        {
            fine += 1;
        }
        let ghost resto = t@.skip(pos as int);
        proof {
            assert forall|j: int| 0 <= j < fine - pos implies resto[j] != 10 by {
                assert(resto[j] == t@[pos + j]);
            }
            if fine < t.len() {
                assert(resto[fine - pos] == t@[fine as int]);
            }
            lemma_posizione_di(resto, 10, fine - pos);
        }
        let pezzo = if fine > pos && t[fine - 1] == 13 {
            sotto_vettore(t, pos, fine - 1)
        } else {
            sotto_vettore(t, pos, fine)
        };
        proof {
            let ghost grezza = if fine == t.len() {
                resto
            } else {
                resto.take(fine - pos)
            };
            assert(resto.take(fine - pos) =~= t@.subrange(pos as int, fine as int));
            if fine == t.len() {
                assert(resto =~= t@.subrange(pos as int, fine as int));
            }
            if fine > pos && t@[fine - 1] == 13 {
                assert(grezza.len() > 0 && grezza.last() == 13);
                assert(grezza.drop_last() =~= t@.subrange(pos as int, fine - 1));
                assert(pezzo@ == togli_cr(grezza));
            } else {
                assert(pezzo@ == togli_cr(grezza));
            }
        }
        r.push(pezzo);
        proof {
            assert(viste(r@) =~= viste(r@.drop_last()) + seq![pezzo@]);
            if fine == t.len() {
                assert(righe(resto) == seq![togli_cr(resto)]);
                assert(righe(t@) =~= viste(r@) + righe(t@.skip(t.len() as int)));
                assert(t@.skip(t.len() as int) =~= Seq::<u8>::empty());
            } else {
                assert(righe(resto) == seq![togli_cr(resto.take(fine - pos))] + righe(
                    resto.skip(fine - pos + 1),
                ));
                assert(resto.skip(fine - pos + 1) =~= t@.skip(fine + 1 as int));
                assert(righe(t@) =~= viste(r@) + righe(t@.skip(fine + 1 as int)));
            }
        }
        if fine == t.len() {
            pos = t.len();
        } else {
            pos = fine + 1;
        }
    }
    proof {
        assert(t@.skip(pos as int) =~= Seq::<u8>::empty());
        assert(righe(t@) =~= viste(r@));
    }
    r
}

/// Copia del vettore senza spazi bianchi iniziali e finali.
pub fn rifila_vec(t: &Vec<u8>) -> (r: Vec<u8>)
    ensures
        r@ == rifila(t@),
{
    let mut inizio: usize = 0;
    proof {
        assert(t@.skip(0) =~= t@);
    }
    while inizio < t.len() && (t[inizio] == (' ' as u8) || (9 <= t[inizio] && t[inizio] <= 13))
        invariant
            inizio <= t.len(),
            rifila_testa(t@) == rifila_testa(t@.skip(inizio as int)),
        decreases t.len() - inizio,
    {
        proof {
            let ghost resto = t@.skip(inizio as int);
            assert(bianco(resto[0]));
            assert(resto.skip(1) =~= t@.skip(inizio + 1 as int));
        }
        inizio += 1;
    }
    let ghost testa = t@.skip(inizio as int);
    proof {
        if inizio < t.len() {
            assert(!bianco(testa[0]));
        }
        assert(rifila_testa(testa) == testa);
        assert(testa =~= t@.subrange(inizio as int, t.len() as int));
    }
    let mut fine: usize = t.len();
    while fine > inizio && (t[fine - 1] == (' ' as u8) || (9 <= t[fine - 1] && t[fine - 1] <= 13))
        invariant
            inizio <= fine <= t.len(),
            rifila_coda(testa) == rifila_coda(t@.subrange(inizio as int, fine as int)),
        decreases fine,
    {
        proof {
            let ghost pezzo = t@.subrange(inizio as int, fine as int);
            assert(pezzo.last() == t@[fine - 1]);
            assert(bianco(pezzo.last()));
            assert(pezzo.drop_last() =~= t@.subrange(inizio as int, fine - 1));
        }
        fine -= 1;
    }
    let r = sotto_vettore(t, inizio, fine);
    proof {
        let ghost pezzo = t@.subrange(inizio as int, fine as int);
        if fine > inizio {
            assert(pezzo.last() == t@[fine - 1]);
            assert(!bianco(pezzo.last()));
        }
        assert(rifila_coda(pezzo) == pezzo);
        assert(testa =~= t@.subrange(inizio as int, t.len() as int));
    }
    r
}

/// La sequenza senza alcun punto e virgola ne' spazio, ovunque compaiano.
pub open spec fn pulisci(s: Seq<u8>) -> Seq<u8>
    decreases s.len(),
{
    if s.len() == 0 {
        s
    } else if s[0] == (';' as u8) || s[0] == (' ' as u8) {
        pulisci(s.skip(1))
    } else {
        seq![s[0]] + pulisci(s.skip(1))
    }
}

/// Copia del vettore senza punti e virgola ne' spazi.
pub fn pulisci_vec(t: &Vec<u8>) -> (r: Vec<u8>)
    ensures
        r@ == pulisci(t@),
{
    let mut r: Vec<u8> = Vec::new();
    let mut i: usize = 0;
    proof {
        assert(t@.skip(0) =~= t@);
    }
    while i < t.len()
        invariant
            i <= t.len(),
            pulisci(t@) == r@ + pulisci(t@.skip(i as int)),
        decreases t.len() - i,
    {
        let b = t[i];
        let ghost resto = t@.skip(i as int);
        proof {
            assert(resto[0] == t@[i as int]);
            assert(resto.skip(1) =~= t@.skip(i + 1));
        }
        if !(b == (';' as u8) || b == (' ' as u8)) {
            r.push(b);
            proof {
                assert(pulisci(resto) == seq![resto[0]] + pulisci(resto.skip(1)));
                assert(r@ + pulisci(t@.skip(i + 1)) =~= pulisci(t@));
            }
        }
        i += 1;
    }
    proof {
        assert(t@.skip(t@.len() as int) =~= Seq::<u8>::empty());
        assert(r@ =~= pulisci(t@));
    }
    r
}

/// Senza il byte separatore la divisione rende la sequenza intera.
pub proof fn lemma_divisione_senza(s: Seq<u8>, b: u8)
    requires
        forall|j: int| 0 <= j < s.len() ==> s[j] != b,
    ensures
        divisione(s, b) == seq![s],
{
    lemma_posizione_di(s, b, s.len() as int);
}

/// La pulizia distribuisce sulla concatenazione.
pub proof fn lemma_pulisci_concat(a: Seq<u8>, b: Seq<u8>)
    ensures
        pulisci(a + b) == pulisci(a) + pulisci(b),
    decreases a.len(),
{
    if a.len() == 0 {
        assert(a + b =~= b);
        assert(pulisci(a) + pulisci(b) =~= pulisci(b));
    } else {
        lemma_pulisci_concat(a.skip(1), b);
        assert((a + b).skip(1) =~= a.skip(1) + b);
        assert((a + b)[0] == a[0]);
        if a[0] == (';' as u8) || a[0] == (' ' as u8) {
        } else {
            assert(seq![a[0]] + (pulisci(a.skip(1)) + pulisci(b)) =~= (seq![a[0]] + pulisci(
                a.skip(1),
            )) + pulisci(b));
        }
    }
}

/// Senza punti e virgola ne' spazi la pulizia non cambia nulla.
pub proof fn lemma_pulisci_identita(s: Seq<u8>)
    requires
        forall|j: int| 0 <= j < s.len() ==> s[j] != (';' as u8) && s[j] != (' ' as u8),
    ensures
        pulisci(s) == s,
    decreases s.len(),
{
    if s.len() > 0 {
        lemma_pulisci_identita(s.skip(1));
        assert(seq![s[0]] + s.skip(1) =~= s);
    }
}

/// Una riga senza a capo seguita da un a capo e dal resto si stacca come
/// prima riga del testo.
pub proof fn lemma_righe_spezza(a: Seq<u8>, b: Seq<u8>)
    requires
        forall|j: int| 0 <= j < a.len() ==> a[j] != 10,
    ensures
        righe(a + seq![10u8] + b) == seq![togli_cr(a)] + righe(b),
{
    let s = a + seq![10u8] + b;
    assert forall|j: int| 0 <= j < a.len() implies s[j] != 10 by {
        assert(s[j] == a[j]);
    }
    assert(s[a.len() as int] == 10);
    lemma_posizione_di(s, 10, a.len() as int);
    assert(s.take(a.len() as int) =~= a);
    assert(s.skip(a.len() as int + 1) =~= b);
}

/// Una parola non vuota e priva di spazi bianchi, da sola o seguita da uno
/// spazio e dal resto, si stacca come prima parola.
pub proof fn lemma_parole_token(t: Seq<u8>, resto: Seq<u8>)
    requires
        t.len() >= 1,
        forall|j: int| 0 <= j < t.len() ==> !bianco(#[trigger] t[j]),
    ensures
        parole(t) == seq![t],
        parole(t + seq![(' ' as u8)] + resto) == seq![t] + parole(resto),
{
    lemma_posizione_bianca_di(t, t.len() as int);
    assert(!bianco(t[0]));
    assert(t.take(t.len() as int) =~= t);
    assert(t.skip(t.len() as int) =~= Seq::<u8>::empty());
    assert(parole(Seq::<u8>::empty()) == Seq::<Seq<u8>>::empty());
    assert(parole(t) == seq![t.take(posizione_bianca(t))] + parole(t.skip(posizione_bianca(t))));
    assert(parole(t) =~= seq![t]);
    let s = t + seq![(' ' as u8)] + resto;
    assert forall|j: int| 0 <= j < t.len() implies !bianco(s[j]) by {
        assert(s[j] == t[j]);
    }
    assert(s[t.len() as int] == (' ' as u8));
    assert(bianco(s[t.len() as int]));
    lemma_posizione_bianca_di(s, t.len() as int);
    assert(s.len() > 0 && !bianco(s[0]));
    assert(parole(s) == seq![s.take(posizione_bianca(s))] + parole(s.skip(posizione_bianca(s))));
    assert(s.take(t.len() as int) =~= t);
    assert(s.skip(t.len() as int) =~= seq![(' ' as u8)] + resto);
    let coda = seq![(' ' as u8)] + resto;
    assert(coda.len() > 0 && bianco(coda[0]));
    assert(parole(coda) == parole(coda.skip(1)));
    assert(coda.skip(1) =~= resto);
    assert(parole(s) =~= seq![t] + parole(resto));
}

/// Senza spazi bianchi in testa e in coda la rifilatura non cambia nulla.
pub proof fn lemma_rifila_pulita(s: Seq<u8>)
    requires
        s.len() == 0 || (!bianco(s[0]) && !bianco(s.last())),
    ensures
        rifila(s) == s,
{
}

/// La rifilatura di uno spazio, il corpo e un eventuale spazio in coda
/// rende il corpo, se il corpo non comincia ne' finisce con uno spazio
/// bianco.
pub proof fn lemma_rifila_intorno(corpo: Seq<u8>)
    requires
        corpo.len() >= 1,
        !bianco(corpo[0]),
        !bianco(corpo.last()),
    ensures
        rifila(seq![(' ' as u8)] + corpo) == corpo,
        rifila(seq![(' ' as u8)] + corpo + seq![(' ' as u8)]) == corpo,
{
    let s1 = seq![(' ' as u8)] + corpo;
    assert(bianco(s1[0]));
    assert(s1.skip(1) =~= corpo);
    assert(rifila_testa(s1) == rifila_testa(corpo));
    assert(rifila_testa(corpo) == corpo);
    assert(rifila_coda(corpo) == corpo);
    let s2 = seq![(' ' as u8)] + corpo + seq![(' ' as u8)];
    assert(bianco(s2[0]));
    assert(s2.skip(1) =~= corpo + seq![(' ' as u8)]);
    let c2 = corpo + seq![(' ' as u8)];
    assert(c2[0] == corpo[0]);
    assert(rifila_testa(c2) == c2);
    assert(bianco(c2.last()));
    assert(c2.drop_last() =~= corpo);
    assert(rifila_coda(c2) == rifila_coda(corpo));
}

} // verus!
