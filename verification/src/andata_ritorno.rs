//! Andata e ritorno della codifica: il testo scritto dal salvataggio,
//! riletto, restituisce la stessa rete, e un nuovo salvataggio riscrive
//! lo stesso testo.
use crate::attivazione::analizza_codice_spec;
use crate::attivazione::codice_di;
use crate::attivazione::funzione_valida;
use crate::attivazione::sigla_leaky_relu;
use crate::attivazione::sigla_lineare;
use crate::attivazione::sigla_nessuna;
use crate::attivazione::sigla_relu;
use crate::attivazione::sigla_sigmoide;
use crate::attivazione::sigla_softplus;
use crate::attivazione::sigla_swish;
use crate::attivazione::sigla_tanh;
use crate::attivazione::FunzioneVista;
use crate::codec::aggiungi_codici;
use crate::codec::analizza_tasso;
use crate::codec::blocchi_da;
use crate::codec::carica_righe;
use crate::codec::chiudi_matrice;
use crate::codec::codici_da;
use crate::codec::fine_carica;
use crate::codec::leggi_numeri;
use crate::codec::leggi_riga_pesi;
use crate::codec::passo_carica;
use crate::codec::riga_da;
use crate::codec::righe_strato_da;
use crate::codec::separatore_strato;
use crate::codec::spec_deserializza;
use crate::codec::spec_serializza;
use crate::codec::stato_iniziale;
use crate::codec::tag_apprendimento;
use crate::codec::tag_attivazione;
use crate::codec::tag_rete;
use crate::codec::topologia_da;
use crate::codec::StatoCarica;
use crate::dividi::divisione;
use crate::dividi::divisione_coppia;
use crate::dividi::inizia_con;
use crate::dividi::lemma_divisione_senza;
use crate::dividi::lemma_parole_token;
use crate::dividi::lemma_posizione_coppia_di;
use crate::dividi::lemma_posizione_di;
use crate::dividi::lemma_pulisci_concat;
use crate::dividi::lemma_pulisci_identita;
use crate::dividi::lemma_rifila_intorno;
use crate::dividi::lemma_rifila_pulita;
use crate::dividi::lemma_righe_spezza;
use crate::dividi::parole;
use crate::dividi::pulisci;
use crate::dividi::righe;
use crate::dividi::rifila;
use crate::rete::casella;
use crate::rete::forme_giuste;
use crate::rete::matrice_valida;
use crate::rete::rete_valida;
use crate::rete::righe_di;
use crate::rete::MatriceVista;
use crate::rete::ReteVista;
use crate::testo::bianco;
use crate::testo::byte_di_token;
use crate::testo::cifra;
use crate::testo::lemma_byte_token;
use crate::testo::lemma_rappresentazione_usize;
use crate::testo::rappresentazione_usize;
use crate::testo::token_numerico;
use crate::testo::token_positivo;
use vstd::prelude::*;

verus! {

/// La riga del tasso di apprendimento scritta dal salvataggio.
pub open spec fn linea_tasso(tasso: Seq<u8>) -> Seq<u8> {
    tag_apprendimento() + seq![(' ' as u8)] + tasso
}

/// La riga delle funzioni di attivazione scritta dal salvataggio.
pub open spec fn linea_attivazioni(funzioni: Seq<FunzioneVista>) -> Seq<u8> {
    tag_attivazione() + seq![(' ' as u8)] + codici_da(funzioni, 0)
}

/// La riga della topologia scritta dal salvataggio.
pub open spec fn linea_topologia(dimensioni: Seq<usize>) -> Seq<u8> {
    tag_rete() + seq![(' ' as u8)] + topologia_da(dimensioni, 0)
}

/// Le righe di testo del blocco di uno strato, chiuse dalla riga
/// separatrice.
pub open spec fn linee_strato(m: MatriceVista, r: int) -> Seq<Seq<u8>>
    decreases m.righe - r,
{
    if r < 0 || r >= m.righe {
        seq![separatore_strato()]
    } else {
        seq![riga_da(m, r, 0)] + linee_strato(m, r + 1)
    }
}

/// Le righe di testo dei blocchi degli strati dalla posizione `i` in poi.
pub open spec fn linee_blocchi(strati: Seq<MatriceVista>, i: int) -> Seq<Seq<u8>>
    decreases strati.len() - i,
{
    if i < 0 || i >= strati.len() {
        Seq::empty()
    } else {
        linee_strato(strati[i], 0) + linee_blocchi(strati, i + 1)
    }
}

/// Il byte non e' un a capo, un ritorno carrello, un punto e virgola ne'
/// uno spazio: puo' stare dentro un codice di attivazione.
pub open spec fn byte_di_codice(b: u8) -> bool {
    b != 10 && b != 13 && b != (';' as u8) && b != (' ' as u8)
}

/// Il codice di una funzione ben formata non e' vuoto e non contiene
/// a capo, ritorni carrello, punti e virgola ne' spazi.
pub proof fn lemma_codice_pulito(f: FunzioneVista)
    requires
        funzione_valida(f),
    ensures
        codice_di(f).len() >= 4,
        forall|j: int| 0 <= j < codice_di(f).len() ==> byte_di_codice(#[trigger] codice_di(f)[j]),
        !bianco(codice_di(f)[0]),
{
    match f {
        FunzioneVista::LeakyReLU(alfa) => {
            lemma_byte_token(alfa);
            let c = codice_di(f);
            assert(c[0] == sigla_leaky_relu()[0]);
            assert forall|j: int| 0 <= j < c.len() implies byte_di_codice(#[trigger] c[j]) by {
                if j < 9 {
                    assert(c[j] == sigla_leaky_relu()[j]);
                } else if j == 9 {
                } else {
                    assert(c[j] == alfa[j - 10]);
                    assert(byte_di_token(alfa[j - 10]));
                }
            }
        },
        _ => {},
    }
}

/// I codici scritti in fila non contengono a capo ne' ritorni carrello;
/// con almeno una funzione cominciano con un byte pieno e finiscono con
/// lo spazio del separatore.
pub proof fn lemma_codici_puliti(fs: Seq<FunzioneVista>, i: int)
    requires
        forall|j: int| 0 <= j < fs.len() ==> funzione_valida(#[trigger] fs[j]),
    ensures
        forall|j: int|
            0 <= j < codici_da(fs, i).len() ==> codici_da(fs, i)[j] != 10 && codici_da(fs, i)[j]
                != 13,
        0 <= i < fs.len() ==> codici_da(fs, i).len() >= 6 && byte_di_codice(codici_da(fs, i)[0])
            && !bianco(codici_da(fs, i)[0]) && codici_da(fs, i).last() == (' ' as u8),
    decreases fs.len() - i,
{
    if 0 <= i < fs.len() {
        lemma_codici_puliti(fs, i + 1);
        lemma_codice_pulito(fs[i]);
        let c = codice_di(fs[i]);
        let resto = codici_da(fs, i + 1);
        let tutto = codici_da(fs, i);
        assert(tutto =~= c + seq![(';' as u8), (' ' as u8)] + resto);
        assert forall|j: int| 0 <= j < tutto.len() implies tutto[j] != 10 && tutto[j] != 13 by {
            if j < c.len() {
                assert(tutto[j] == c[j]);
                assert(byte_di_codice(c[j]));
            } else if j < c.len() + 2 {
            } else {
                assert(tutto[j] == resto[j - c.len() - 2]);
            }
        }
        assert(tutto[0] == c[0]);
        if resto.len() == 0 {
            assert(tutto.last() == (' ' as u8));
        } else {
            assert(i + 1 < fs.len());
            assert(tutto.last() == resto.last());
        }
    }
}

/// La topologia scritta in fila e' fatta di cifre, virgole e spazi;
/// comincia e finisce con una cifra.
pub proof fn lemma_topologia_pulita(dimensioni: Seq<usize>, i: int)
    requires
        0 <= i < dimensioni.len(),
    ensures
        topologia_da(dimensioni, i).len() >= 1,
        cifra(topologia_da(dimensioni, i)[0]),
        cifra(topologia_da(dimensioni, i).last()),
        forall|j: int|
            0 <= j < topologia_da(dimensioni, i).len() ==> (cifra(
                #[trigger] topologia_da(dimensioni, i)[j],
            ) || topologia_da(dimensioni, i)[j] == (',' as u8) || topologia_da(dimensioni, i)[j]
                == (' ' as u8)),
    decreases dimensioni.len() - i,
{
    lemma_rappresentazione_usize(dimensioni[i] as int);
    let n = rappresentazione_usize(dimensioni[i] as int);
    let tutto = topologia_da(dimensioni, i);
    if i == dimensioni.len() - 1 {
        assert(tutto == n);
        assert(cifra(n[0]));
        assert(cifra(n.last()));
    } else {
        lemma_topologia_pulita(dimensioni, i + 1);
        let resto = topologia_da(dimensioni, i + 1);
        assert(tutto =~= n + seq![(',' as u8), (' ' as u8)] + resto);
        assert forall|j: int|
            0 <= j < tutto.len() implies (cifra(#[trigger] tutto[j]) || tutto[j] == (',' as u8)
                || tutto[j] == (' ' as u8)) by {
            if j < n.len() {
                assert(tutto[j] == n[j]);
            } else if j < n.len() + 2 {
            } else {
                assert(tutto[j] == resto[j - n.len() - 2]);
            }
        }
        assert(tutto[0] == n[0]);
        assert(tutto.last() == resto.last());
    }
}

/// Una riga di pesi e' fatta dei byte dei token e di spazi semplici; se
/// le colonne non sono zero comincia e finisce con un byte di token.
pub proof fn lemma_riga_pulita(m: MatriceVista, r: int, c: int)
    requires
        matrice_valida(m),
        0 <= r < m.righe,
        0 <= c,
    ensures
        forall|j: int|
            0 <= j < riga_da(m, r, c).len() ==> (byte_di_token(#[trigger] riga_da(m, r, c)[j])
                || riga_da(m, r, c)[j] == (' ' as u8)),
        c < m.colonne ==> riga_da(m, r, c).len() >= 1 && byte_di_token(riga_da(m, r, c)[0])
            && byte_di_token(riga_da(m, r, c).last()),
    decreases m.colonne - c,
{
    if c < m.colonne {
        let t = casella(m, r, c);
        assert(0 <= c * m.righe + r < m.pesi.len()) by (nonlinear_arith)
            requires
                0 <= r < m.righe,
                0 <= c < m.colonne,
                m.pesi.len() == m.righe * m.colonne,
        ;
        assert(token_numerico(t));
        lemma_byte_token(t);
        let tutto = riga_da(m, r, c);
        if c == m.colonne - 1 {
            assert(tutto == t);
        } else {
            lemma_riga_pulita(m, r, c + 1);
            let resto = riga_da(m, r, c + 1);
            assert(tutto =~= t + seq![(' ' as u8)] + resto);
            assert forall|j: int|
                0 <= j < tutto.len() implies (byte_di_token(#[trigger] tutto[j]) || tutto[j] == (
            ' ' as u8)) by {
                if j < t.len() {
                    assert(tutto[j] == t[j]);
                } else if j == t.len() {
                } else {
                    assert(tutto[j] == resto[j - t.len() - 1]);
                }
            }
            assert(tutto[0] == t[0]);
            assert(tutto.last() == resto.last());
        }
    }
}

/// La riga separatrice non e' un token numerico.
pub proof fn lemma_separatore_non_numerico()
    ensures
        !token_numerico(separatore_strato()),
{
    let s = separatore_strato();
    let corpo = s.skip(1);
    assert(corpo.len() == 2);
    assert(corpo[0] == ('-' as u8));
    assert(crate::testo::minuscole(corpo).len() == 2);
    assert(!crate::testo::token_speciale(corpo));
    assert(!crate::testo::mantissa_valida(corpo)) by {
        assert(corpo[0] != ('.' as u8) && !cifra(corpo[0]));
    }
    assert forall|i: int|
        !(0 <= i < corpo.len() && crate::testo::lettera_esponente(corpo[i])
            && crate::testo::mantissa_valida(corpo.take(i)) && crate::testo::esponente_valido(
            corpo.skip(i + 1),
        )) by {
        if 0 <= i < corpo.len() {
            assert(corpo[i] == ('-' as u8));
            assert(!crate::testo::lettera_esponente(corpo[i]));
        }
    }
    assert(!crate::testo::numero_valido(corpo));
}

/// Dopo le prime righe gia' lette, le righe restanti di una lista
/// concatenata sono quelle della seconda lista.
pub proof fn lemma_carica_appendice(
    st: StatoCarica,
    prime: Seq<Seq<u8>>,
    seconde: Seq<Seq<u8>>,
    i: int,
)
    requires
        0 <= i,
    ensures
        carica_righe(st, prime + seconde, prime.len() + i) == carica_righe(st, seconde, i),
    decreases seconde.len() - i,
{
    let tutte = prime + seconde;
    if i >= seconde.len() {
        assert(prime.len() + i >= tutte.len());
    } else {
        assert(tutte[prime.len() + i] == seconde[i]);
        match passo_carica(st, seconde[i]) {
            Ok(st2) => {
                lemma_carica_appendice(st2, prime, seconde, i + 1);
            },
            Err(_) => {},
        }
    }
}

/// Il passo sulla riga del tasso: il tasso cambia solo con un token dal
/// valore maggiore di zero, e il resto dello stato non si muove.
pub proof fn lemma_passo_tasso(st: StatoCarica, tasso: Seq<u8>)
    requires
        token_numerico(tasso),
    ensures
        passo_carica(st, linea_tasso(tasso)) == Ok::<StatoCarica, crate::errori::ErroreRete>(
            StatoCarica {
                tasso: if token_positivo(tasso) {
                    tasso
                } else {
                    st.tasso
                },
                funzioni: st.funzioni,
                dimensioni: st.dimensioni,
                strati: st.strati,
                blocco: st.blocco,
            },
        ),
{
    let l = linea_tasso(tasso);
    lemma_byte_token(tasso);
    assert(l.take(4) =~= tag_apprendimento());
    assert(inizia_con(l, tag_apprendimento()));
    let resto = l.skip(4);
    assert(resto =~= seq![(' ' as u8)] + tasso);
    assert(resto[0] == (' ' as u8));
    lemma_posizione_di(resto, ' ' as u8, 0);
    assert(resto.take(0) =~= Seq::<u8>::empty());
    assert(resto.skip(1) =~= tasso);
    assert forall|j: int| 0 <= j < tasso.len() implies tasso[j] != (' ' as u8) by {
        assert(byte_di_token(tasso[j]));
    }
    lemma_divisione_senza(tasso, ' ' as u8);
    let pezzi = divisione(resto, ' ' as u8);
    assert(pezzi =~= seq![Seq::<u8>::empty()] + seq![tasso]);
    assert(pezzi.len() == 2);
    assert(pezzi[1] == tasso);
    assert(analizza_tasso(l) == if token_positivo(tasso) {
        Ok::<Option<Seq<u8>>, crate::errori::ErroreRete>(Some(tasso))
    } else {
        Ok::<Option<Seq<u8>>, crate::errori::ErroreRete>(None::<Seq<u8>>)
    });
}

/// Ogni sigla scritta dal salvataggio torna alla stessa funzione quando
/// viene riletta.
pub proof fn lemma_analizza_codice(f: FunzioneVista)
    requires
        funzione_valida(f),
    ensures
        analizza_codice_spec(codice_di(f)) == Ok::<FunzioneVista, crate::errori::ErroreRete>(f),
{
    let t = codice_di(f);
    let prefisso = sigla_leaky_relu() + seq![('_' as u8)];
    match f {
        FunzioneVista::LeakyReLU(alfa) => {
            lemma_byte_token(alfa);
            assert(t.take(10) =~= prefisso);
            assert(inizia_con(t, prefisso));
            assert forall|j: int| 0 <= j < 9 implies t[j] != ('_' as u8) by {
                assert(t[j] == sigla_leaky_relu()[j]);
            }
            assert(t[9] == ('_' as u8));
            lemma_posizione_di(t, '_' as u8, 9);
            assert(t.take(9) =~= sigla_leaky_relu());
            assert(t.skip(10) =~= alfa);
            assert forall|j: int| 0 <= j < alfa.len() implies alfa[j] != ('_' as u8) by {
                assert(byte_di_token(alfa[j]));
            }
            lemma_divisione_senza(alfa, '_' as u8);
            let pezzi = divisione(t, '_' as u8);
            assert(pezzi =~= seq![sigla_leaky_relu()] + seq![alfa]);
            assert(pezzi.len() == 2);
            assert(pezzi[1] == alfa);
        },
        _ => {
            assert(t.len() < 10);
            assert(!inizia_con(t, prefisso));
            match f {
                FunzioneVista::Sigmoide => {
                },
                FunzioneVista::ReLU => {
                    assert(t != sigla_sigmoide());
                },
                FunzioneVista::Tanh => {
                    assert(sigla_tanh()[0] != sigla_relu()[0]);
                    assert(t != sigla_relu());
                },
                FunzioneVista::Softplus => {
                    assert(sigla_softplus()[1] != sigla_sigmoide()[1]);
                    assert(t != sigla_sigmoide());
                },
                FunzioneVista::Swish => {
                },
                FunzioneVista::Lineare => {
                    assert(sigla_lineare()[0] != sigla_sigmoide()[0]);
                    assert(t != sigla_sigmoide());
                },
                FunzioneVista::Nessuna => {
                    assert(sigla_nessuna()[0] != sigla_relu()[0]);
                    assert(sigla_nessuna()[0] != sigla_tanh()[0]);
                    assert(t != sigla_relu());
                    assert(t != sigla_tanh());
                },
                FunzioneVista::LeakyReLU(_) => {},
            }
        },
    }
}

/// I pezzi in cui la rilettura divide la riga delle attivazioni: i codici
/// nell'ordine di scrittura, l'ultimo col punto e virgola attaccato.
pub open spec fn pezzi_codici(fs: Seq<FunzioneVista>) -> Seq<Seq<u8>> {
    Seq::new(
        fs.len(),
        |j: int|
            if j == fs.len() - 1 {
                codice_di(fs[j]) + seq![(';' as u8)]
            } else {
                codice_di(fs[j])
            },
    )
}

/// La fila dei codici senza lo spazio finale, divisa sul separatore,
/// rende i pezzi dei codici.
pub proof fn lemma_codici_divisione(fs: Seq<FunzioneVista>, i: int)
    requires
        forall|j: int| 0 <= j < fs.len() ==> funzione_valida(#[trigger] fs[j]),
        0 <= i < fs.len(),
    ensures
        divisione_coppia(codici_da(fs, i).drop_last(), ';' as u8, ' ' as u8) == pezzi_codici(
            fs,
        ).skip(i),
    decreases fs.len() - i,
{
    lemma_codice_pulito(fs[i]);
    let c = codice_di(fs[i]);
    if i == fs.len() - 1 {
        assert(codici_da(fs, i + 1) == Seq::<u8>::empty());
        let s = codici_da(fs, i).drop_last();
        assert(s =~= c + seq![(';' as u8)]);
        assert forall|j: int|
            0 <= j < s.len() && j + 1 < s.len() implies !(#[trigger] s[j] == (';' as u8) && s[j
                + 1] == (' ' as u8)) by {
            if j + 1 < s.len() {
                assert(s[j + 1] == c[j + 1] || j + 1 == c.len());
                if j + 1 < c.len() {
                    assert(byte_di_codice(c[j + 1]));
                }
            }
        }
        lemma_posizione_coppia_di(s, ';' as u8, ' ' as u8, s.len() as int);
        assert(divisione_coppia(s, ';' as u8, ' ' as u8) == seq![s]);
        assert(pezzi_codici(fs).skip(i) =~= seq![c + seq![(';' as u8)]]);
    } else {
        lemma_codici_divisione(fs, i + 1);
        lemma_codici_puliti(fs, i + 1);
        let resto = codici_da(fs, i + 1);
        assert(resto.len() >= 6);
        let s = codici_da(fs, i).drop_last();
        assert(codici_da(fs, i) =~= c + seq![(';' as u8), (' ' as u8)] + resto);
        assert(s =~= c + seq![(';' as u8), (' ' as u8)] + resto.drop_last());
        assert forall|j: int| 0 <= j < c.len() && j + 1 < s.len() implies !(#[trigger] s[j] == (
        ';' as u8) && s[j + 1] == (' ' as u8)) by {
            assert(s[j] == c[j]);
            assert(byte_di_codice(c[j]));
        }
        assert(s[c.len() as int] == (';' as u8));
        assert(s[c.len() as int + 1] == (' ' as u8));
        lemma_posizione_coppia_di(s, ';' as u8, ' ' as u8, c.len() as int);
        assert(s.take(c.len() as int) =~= c);
        assert(s.skip(c.len() as int + 2) =~= resto.drop_last());
        assert(divisione_coppia(s, ';' as u8, ' ' as u8) == seq![c] + divisione_coppia(
            resto.drop_last(),
            ';' as u8,
            ' ' as u8,
        ));
        assert(pezzi_codici(fs).skip(i) =~= seq![c] + pezzi_codici(fs).skip(i + 1));
    }
}

/// La rilettura dei pezzi dei codici accoda le stesse funzioni scritte.
pub proof fn lemma_aggiungi_pezzi(
    acc: Seq<FunzioneVista>,
    fs: Seq<FunzioneVista>,
    pezzi: Seq<Seq<u8>>,
    i: int,
)
    requires
        forall|j: int| 0 <= j < fs.len() ==> funzione_valida(#[trigger] fs[j]),
        pezzi.len() == fs.len(),
        0 <= i <= fs.len(),
        forall|j: int| i <= j < fs.len() ==> pulisci(#[trigger] pezzi[j]) == codice_di(fs[j]),
    ensures
        aggiungi_codici(acc, pezzi, i) == Ok::<Seq<FunzioneVista>, crate::errori::ErroreRete>(
            acc + fs.skip(i),
        ),
    decreases fs.len() - i,
{
    if i >= fs.len() {
        assert(fs.skip(i) =~= Seq::<FunzioneVista>::empty());
        assert(acc + fs.skip(i) =~= acc);
    } else {
        lemma_codice_pulito(fs[i]);
        lemma_analizza_codice(fs[i]);
        assert(pulisci(pezzi[i]).len() >= 4);
        lemma_aggiungi_pezzi(acc.push(fs[i]), fs, pezzi, i + 1);
        assert(acc.push(fs[i]) + fs.skip(i + 1) =~= acc + fs.skip(i));
    }
}

/// Il passo sulla riga delle attivazioni accoda le funzioni scritte.
pub proof fn lemma_passo_attivazioni(st: StatoCarica, fs: Seq<FunzioneVista>)
    requires
        fs.len() >= 1,
        forall|j: int| 0 <= j < fs.len() ==> funzione_valida(#[trigger] fs[j]),
    ensures
        passo_carica(st, linea_attivazioni(fs)) == Ok::<StatoCarica, crate::errori::ErroreRete>(
            StatoCarica {
                tasso: st.tasso,
                funzioni: st.funzioni + fs,
                dimensioni: st.dimensioni,
                strati: st.strati,
                blocco: st.blocco,
            },
        ),
{
    let l = linea_attivazioni(fs);
    let corpo = codici_da(fs, 0);
    lemma_codici_puliti(fs, 0);
    assert(l.take(4) =~= tag_attivazione());
    assert(inizia_con(l, tag_attivazione()));
    assert(l[1] == ('*' as u8));
    assert(!inizia_con(l, tag_apprendimento())) by {
        if inizia_con(l, tag_apprendimento()) {
            assert(l.take(4)[1] == ('+' as u8));
        }
    }
    let resto = l.skip(4);
    assert(resto =~= seq![(' ' as u8)] + corpo);
    lemma_coda_codici(fs, 0);
    let senza_coda = corpo.drop_last();
    assert(corpo =~= senza_coda + seq![(' ' as u8)]);
    assert(senza_coda.len() >= 1);
    assert(senza_coda[0] == corpo[0]);
    assert(!bianco(senza_coda[0]));
    assert(senza_coda.last() == corpo[corpo.len() - 2]);
    assert(senza_coda.last() == (';' as u8));
    assert(!bianco(senza_coda.last()));
    lemma_rifila_intorno(senza_coda);
    assert(seq![(' ' as u8)] + senza_coda + seq![(' ' as u8)] =~= resto);
    assert(rifila(resto) == senza_coda);
    lemma_codici_divisione(fs, 0);
    assert(pezzi_codici(fs).skip(0) =~= pezzi_codici(fs));
    let pezzi = pezzi_codici(fs);
    assert forall|j: int| 0 <= j < fs.len() implies pulisci(#[trigger] pezzi[j]) == codice_di(
        fs[j],
    ) by {
        lemma_codice_pulito(fs[j]);
        assert forall|k: int|
            0 <= k < codice_di(fs[j]).len() implies codice_di(fs[j])[k] != (';' as u8) && codice_di(
            fs[j],
        )[k] != (' ' as u8) by {
            assert(byte_di_codice(codice_di(fs[j])[k]));
        }
        lemma_pulisci_identita(codice_di(fs[j]));
        if j == fs.len() - 1 {
            lemma_pulisci_concat(codice_di(fs[j]), seq![(';' as u8)]);
            let punto = seq![(';' as u8)];
            assert(punto[0] == (';' as u8));
            assert(punto.skip(1) =~= Seq::<u8>::empty());
            assert(pulisci(punto) == pulisci(punto.skip(1)));
            assert(pulisci(Seq::<u8>::empty()) == Seq::<u8>::empty());
            assert(codice_di(fs[j]) + Seq::<u8>::empty() =~= codice_di(fs[j]));
        }
    }
    lemma_aggiungi_pezzi(st.funzioni, fs, pezzi, 0);
    assert(fs.skip(0) =~= fs);
}

/// In coda alla fila dei codici stanno sempre punto e virgola e spazio.
pub proof fn lemma_coda_codici(fs: Seq<FunzioneVista>, i: int)
    requires
        0 <= i < fs.len(),
        forall|j: int| 0 <= j < fs.len() ==> funzione_valida(#[trigger] fs[j]),
    ensures
        codici_da(fs, i).len() >= 2,
        codici_da(fs, i)[codici_da(fs, i).len() - 2] == (';' as u8),
        codici_da(fs, i).last() == (' ' as u8),
    decreases fs.len() - i,
{
    let c = codice_di(fs[i]);
    let resto = codici_da(fs, i + 1);
    let tutto = codici_da(fs, i);
    assert(tutto =~= c + seq![(';' as u8), (' ' as u8)] + resto);
    if i == fs.len() - 1 {
        assert(resto == Seq::<u8>::empty());
        assert(tutto.len() == c.len() + 2);
        assert(tutto[tutto.len() - 2] == (';' as u8));
    } else {
        lemma_coda_codici(fs, i + 1);
        assert(tutto[tutto.len() - 2] == resto[resto.len() - 2]);
        assert(tutto.last() == resto.last());
    }
}

/// I pezzi in cui la rilettura divide la riga della topologia: le
/// scritture decimali dei numeri, nell'ordine.
pub open spec fn pezzi_topologia(dimensioni: Seq<usize>) -> Seq<Seq<u8>> {
    Seq::new(dimensioni.len(), |j: int| rappresentazione_usize(dimensioni[j] as int))
}

/// La topologia scritta, divisa su virgola e spazio, rende le scritture
/// dei singoli numeri.
pub proof fn lemma_topologia_divisione(dimensioni: Seq<usize>, i: int)
    requires
        0 <= i < dimensioni.len(),
    ensures
        divisione_coppia(topologia_da(dimensioni, i), ',' as u8, ' ' as u8) == pezzi_topologia(
            dimensioni,
        ).skip(i),
    decreases dimensioni.len() - i,
{
    lemma_rappresentazione_usize(dimensioni[i] as int);
    let n = rappresentazione_usize(dimensioni[i] as int);
    let s = topologia_da(dimensioni, i);
    if i == dimensioni.len() - 1 {
        assert(s == n);
        assert forall|j: int| 0 <= j < s.len() && j + 1 < s.len() implies !(#[trigger] s[j] == (
        ',' as u8) && s[j + 1] == (' ' as u8)) by {
            assert(cifra(s[j]));
        }
        lemma_posizione_coppia_di(s, ',' as u8, ' ' as u8, s.len() as int);
        assert(divisione_coppia(s, ',' as u8, ' ' as u8) == seq![s]);
        assert(pezzi_topologia(dimensioni).skip(i) =~= seq![n]);
    } else {
        lemma_topologia_divisione(dimensioni, i + 1);
        let resto = topologia_da(dimensioni, i + 1);
        assert(s =~= n + seq![(',' as u8), (' ' as u8)] + resto);
        assert forall|j: int| 0 <= j < n.len() && j + 1 < s.len() implies !(#[trigger] s[j] == (
        ',' as u8) && s[j + 1] == (' ' as u8)) by {
            assert(s[j] == n[j]);
            assert(cifra(n[j]));
        }
        assert(s[n.len() as int] == (',' as u8));
        assert(s[n.len() as int + 1] == (' ' as u8));
        lemma_posizione_coppia_di(s, ',' as u8, ' ' as u8, n.len() as int);
        assert(s.take(n.len() as int) =~= n);
        assert(s.skip(n.len() as int + 2) =~= resto);
        assert(divisione_coppia(s, ',' as u8, ' ' as u8) == seq![n] + divisione_coppia(
            resto,
            ',' as u8,
            ' ' as u8,
        ));
        assert(pezzi_topologia(dimensioni).skip(i) =~= seq![n] + pezzi_topologia(
            dimensioni,
        ).skip(i + 1));
    }
}

/// La rilettura dei pezzi della topologia rende i numeri scritti.
pub proof fn lemma_leggi_pezzi(dimensioni: Seq<usize>, pezzi: Seq<Seq<u8>>, i: int)
    requires
        pezzi.len() == dimensioni.len(),
        0 <= i <= dimensioni.len(),
        forall|j: int|
            i <= j < dimensioni.len() ==> #[trigger] pezzi[j] == rappresentazione_usize(
                dimensioni[j] as int,
            ),
    ensures
        leggi_numeri(pezzi, i) == Ok::<Seq<usize>, crate::errori::ErroreRete>(dimensioni.skip(i)),
    decreases dimensioni.len() - i,
{
    if i >= dimensioni.len() {
        assert(dimensioni.skip(i) =~= Seq::<usize>::empty());
    } else {
        lemma_rappresentazione_usize(dimensioni[i] as int);
        lemma_leggi_pezzi(dimensioni, pezzi, i + 1);
        assert(seq![dimensioni[i]] + dimensioni.skip(i + 1) =~= dimensioni.skip(i));
    }
}

/// Il passo sulla riga della topologia scrive le dimensioni dichiarate.
pub proof fn lemma_passo_topologia(st: StatoCarica, dimensioni: Seq<usize>)
    requires
        dimensioni.len() >= 1,
    ensures
        passo_carica(st, linea_topologia(dimensioni)) == Ok::<
            StatoCarica,
            crate::errori::ErroreRete,
        >(
            StatoCarica {
                tasso: st.tasso,
                funzioni: st.funzioni,
                dimensioni: dimensioni,
                strati: st.strati,
                blocco: st.blocco,
            },
        ),
{
    let l = linea_topologia(dimensioni);
    let corpo = topologia_da(dimensioni, 0);
    lemma_topologia_pulita(dimensioni, 0);
    assert(l.take(4) =~= tag_rete());
    assert(inizia_con(l, tag_rete()));
    assert(l[1] == ('#' as u8));
    assert(!inizia_con(l, tag_apprendimento())) by {
        if inizia_con(l, tag_apprendimento()) {
            assert(l.take(4)[1] == ('+' as u8));
        }
    }
    assert(!inizia_con(l, tag_attivazione())) by {
        if inizia_con(l, tag_attivazione()) {
            assert(l.take(4)[1] == ('*' as u8));
        }
    }
    let resto = l.skip(4);
    assert(resto =~= seq![(' ' as u8)] + corpo);
    assert(!bianco(corpo[0]));
    assert(!bianco(corpo.last()));
    lemma_rifila_intorno(corpo);
    assert(rifila(resto) == corpo);
    lemma_topologia_divisione(dimensioni, 0);
    assert(pezzi_topologia(dimensioni).skip(0) =~= pezzi_topologia(dimensioni));
    lemma_leggi_pezzi(dimensioni, pezzi_topologia(dimensioni), 0);
    assert(dimensioni.skip(0) =~= dimensioni);
}

/// Una riga di pesi non porta alcun prefisso d'intestazione e non e' la
/// riga separatrice; la sua rilettura accoda al blocco i token scritti.
pub proof fn lemma_passo_riga_pesi(st: StatoCarica, m: MatriceVista, r: int)
    requires
        matrice_valida(m),
        0 <= r < m.righe,
    ensures
        passo_carica(st, riga_da(m, r, 0)) == Ok::<StatoCarica, crate::errori::ErroreRete>(
            StatoCarica {
                tasso: st.tasso,
                funzioni: st.funzioni,
                dimensioni: st.dimensioni,
                strati: st.strati,
                blocco: st.blocco.push(righe_di(m)[r]),
            },
        ),
{
    let l = riga_da(m, r, 0);
    lemma_riga_pulita(m, r, 0);
    assert(!inizia_con(l, tag_apprendimento())) by {
        if inizia_con(l, tag_apprendimento()) {
            assert(l.take(4)[0] == ('[' as u8));
            assert(l[0] == ('[' as u8));
            assert(m.colonne > 0);
            assert(byte_di_token(l[0]));
        }
    }
    assert(!inizia_con(l, tag_attivazione())) by {
        if inizia_con(l, tag_attivazione()) {
            assert(l.take(4)[0] == ('[' as u8));
            assert(l[0] == ('[' as u8));
            assert(m.colonne > 0);
            assert(byte_di_token(l[0]));
        }
    }
    assert(!inizia_con(l, tag_rete())) by {
        if inizia_con(l, tag_rete()) {
            assert(l.take(4)[0] == ('[' as u8));
            assert(l[0] == ('[' as u8));
            assert(m.colonne > 0);
            assert(byte_di_token(l[0]));
        }
    }
    assert(rifila(l) != separatore_strato()) by {
        if m.colonne == 0 {
            assert(l.len() == 0);
            assert(rifila(l).len() == 0);
        } else {
            assert(!bianco(l[0]));
            assert(!bianco(l.last()));
            lemma_rifila_pulita(l);
            if l == separatore_strato() {
                if m.colonne == 1 {
                    assert(l == casella(m, r, 0));
                    assert(0 <= 0 * m.righe + r < m.pesi.len()) by (nonlinear_arith)
                        requires
                            0 <= r < m.righe,
                            0 < m.colonne,
                            m.pesi.len() == m.righe * m.colonne,
                    ;
                    assert(token_numerico(l));
                    lemma_separatore_non_numerico();
                    assert(false);
                } else {
                    let t0 = casella(m, r, 0);
                    assert(l =~= t0 + seq![(' ' as u8)] + riga_da(m, r, 1));
                    assert(0 <= 0 * m.righe + r < m.pesi.len()) by (nonlinear_arith)
                        requires
                            0 <= r < m.righe,
                            0 < m.colonne,
                            m.pesi.len() == m.righe * m.colonne,
                    ;
                    lemma_byte_token(t0);
                    assert(l[t0.len() as int] == (' ' as u8));
                    assert(t0.len() < 3);
                    assert(separatore_strato()[t0.len() as int] == ('-' as u8));
                    assert(false);
                }
            }
        }
    }
    lemma_parole_riga(m, r, 0);
    assert(parole(l) == righe_di(m)[r]) by {
        assert(righe_di(m)[r] =~= Seq::new(m.colonne as nat, |j: int| casella(m, r, 0 + j)));
    }
    assert(crate::rete::pesi_tutti_numerici(parole(l))) by {
        assert forall|j: int| 0 <= j < parole(l).len() implies token_numerico(
            #[trigger] parole(l)[j],
        ) by {
            assert(parole(l)[j] == casella(m, r, j));
            assert(0 <= j * m.righe + r < m.pesi.len()) by (nonlinear_arith)
                requires
                    0 <= r < m.righe,
                    0 <= j < m.colonne,
                    m.pesi.len() == m.righe * m.colonne,
            ;
        }
    }
    assert(leggi_riga_pesi(l) == Ok::<Seq<Seq<u8>>, crate::errori::ErroreRete>(righe_di(m)[r]));
}

/// Le parole di una riga di pesi sono i token delle sue caselle.
pub proof fn lemma_parole_riga(m: MatriceVista, r: int, c: int)
    requires
        matrice_valida(m),
        0 <= r < m.righe,
        0 <= c,
    ensures
        parole(riga_da(m, r, c)) == Seq::new(
            if m.colonne - c >= 0 {
                (m.colonne - c) as nat
            } else {
                0
            },
            |j: int| casella(m, r, c + j),
        ),
    decreases m.colonne - c,
{
    let atteso = Seq::new(
        if m.colonne - c >= 0 {
            (m.colonne - c) as nat
        } else {
            0
        },
        |j: int| casella(m, r, c + j),
    );
    if c >= m.colonne {
        assert(riga_da(m, r, c) == Seq::<u8>::empty());
        assert(parole(Seq::<u8>::empty()) == Seq::<Seq<u8>>::empty());
        assert(atteso =~= Seq::<Seq<u8>>::empty());
    } else {
        let t = casella(m, r, c);
        assert(0 <= c * m.righe + r < m.pesi.len()) by (nonlinear_arith)
            requires
                0 <= r < m.righe,
                0 <= c < m.colonne,
                m.pesi.len() == m.righe * m.colonne,
        ;
        lemma_byte_token(t);
        assert forall|j: int| 0 <= j < t.len() implies !bianco(#[trigger] t[j]) by {
            assert(byte_di_token(t[j]));
        }
        if c == m.colonne - 1 {
            lemma_parole_token(t, Seq::<u8>::empty());
            assert(parole(riga_da(m, r, c)) == seq![t]);
            assert(atteso =~= seq![t]);
        } else {
            lemma_parole_riga(m, r, c + 1);
            lemma_parole_token(t, riga_da(m, r, c + 1));
            assert(atteso =~= seq![t] + Seq::new(
                (m.colonne - c - 1) as nat,
                |j: int| casella(m, r, c + 1 + j),
            ));
        }
    }
}

/// Il passo sulla riga separatrice chiude il blocco raccolto nella
/// matrice che il salvataggio aveva scritto.
pub proof fn lemma_passo_separatore(st: StatoCarica, m: MatriceVista)
    requires
        matrice_valida(m),
        m.righe >= 1,
        st.blocco == righe_di(m),
    ensures
        passo_carica(st, separatore_strato()) == Ok::<StatoCarica, crate::errori::ErroreRete>(
            StatoCarica {
                tasso: st.tasso,
                funzioni: st.funzioni,
                dimensioni: st.dimensioni,
                strati: st.strati.push(m),
                blocco: Seq::empty(),
            },
        ),
{
    let l = separatore_strato();
    assert(l.len() == 3);
    assert(!inizia_con(l, tag_apprendimento()));
    assert(!inizia_con(l, tag_attivazione()));
    assert(!inizia_con(l, tag_rete()));
    assert(!bianco(l[0]));
    assert(!bianco(l.last()));
    lemma_rifila_pulita(l);
    let bv = st.blocco;
    assert(bv.len() == m.righe);
    assert forall|i: int| 0 <= i < bv.len() implies (#[trigger] bv[i]).len() == bv[0].len() by {
        assert(bv[i] == righe_di(m)[i]);
        assert(bv[0] == righe_di(m)[0]);
    }
    assert(crate::codec::blocco_rettangolare(bv));
    assert(bv[0].len() == m.colonne);
    let ricostruita = chiudi_matrice(bv)->Ok_0;
    assert(chiudi_matrice(bv) == Ok::<MatriceVista, crate::errori::ErroreRete>(ricostruita));
    assert(ricostruita.righe == m.righe);
    assert(ricostruita.colonne == m.colonne);
    assert(ricostruita.pesi.len() == bv.len() * bv[0].len());
    assert(bv.len() * bv[0].len() == m.righe * m.colonne) by (nonlinear_arith)
        requires
            bv.len() == m.righe,
            bv[0].len() == m.colonne,
    ;
    assert forall|k: int| 0 <= k < ricostruita.pesi.len() implies ricostruita.pesi[k] == m.pesi[k]
        by {
        let rr = k % (m.righe as int);
        let cc = k / (m.righe as int);
        assert(0 <= rr < m.righe && 0 <= cc < m.colonne && cc * m.righe + rr == k)
            by (nonlinear_arith)
            requires
                0 <= k < m.righe * m.colonne,
                m.righe >= 1,
                rr == k % (m.righe as int),
                cc == k / (m.righe as int),
        ;
        assert(ricostruita.pesi[k] == bv[rr][cc]);
        assert(bv[rr] == righe_di(m)[rr]);
        assert(bv[rr][cc] == casella(m, rr, cc));
    }
    assert(ricostruita.pesi =~= m.pesi);
    assert(ricostruita == m);
}

/// La lettura delle righe di un blocco, dalla riga `r` in poi, chiude lo
/// strato e prosegue con le righe restanti.
pub proof fn lemma_carica_strato(
    st: StatoCarica,
    m: MatriceVista,
    r: int,
    code: Seq<Seq<u8>>,
)
    requires
        matrice_valida(m),
        m.righe >= 1,
        0 <= r <= m.righe,
        st.blocco == righe_di(m).take(r),
    ensures
        carica_righe(st, linee_strato(m, r) + code, 0) == carica_righe(
            StatoCarica {
                tasso: st.tasso,
                funzioni: st.funzioni,
                dimensioni: st.dimensioni,
                strati: st.strati.push(m),
                blocco: Seq::empty(),
            },
            code,
            0,
        ),
    decreases m.righe - r,
{
    if r == m.righe {
        assert(linee_strato(m, r) == seq![separatore_strato()]);
        assert(st.blocco =~= righe_di(m));
        lemma_passo_separatore(st, m);
        let st2 = StatoCarica {
            tasso: st.tasso,
            funzioni: st.funzioni,
            dimensioni: st.dimensioni,
            strati: st.strati.push(m),
            blocco: Seq::empty(),
        };
        let tutte = linee_strato(m, r) + code;
        assert(tutte[0] == separatore_strato());
        assert(carica_righe(st, tutte, 0) == carica_righe(st2, tutte, 1));
        lemma_carica_appendice(st2, seq![separatore_strato()], code, 0);
        assert(seq![separatore_strato()] + code =~= tutte);
    } else {
        let tutte = linee_strato(m, r) + code;
        assert(linee_strato(m, r) =~= seq![riga_da(m, r, 0)] + linee_strato(m, r + 1));
        assert(tutte[0] == riga_da(m, r, 0));
        lemma_passo_riga_pesi(st, m, r);
        let st2 = StatoCarica {
            tasso: st.tasso,
            funzioni: st.funzioni,
            dimensioni: st.dimensioni,
            strati: st.strati,
            blocco: st.blocco.push(righe_di(m)[r]),
        };
        assert(st2.blocco =~= righe_di(m).take(r + 1));
        assert(carica_righe(st, tutte, 0) == carica_righe(st2, tutte, 1));
        lemma_carica_appendice(st2, seq![riga_da(m, r, 0)], linee_strato(m, r + 1) + code, 0);
        assert(seq![riga_da(m, r, 0)] + (linee_strato(m, r + 1) + code) =~= tutte);
        lemma_carica_strato(st2, m, r + 1, code);
    }
}

/// La lettura delle righe dei blocchi accoda tutte le matrici scritte.
pub proof fn lemma_carica_blocchi(st: StatoCarica, strati: Seq<MatriceVista>, i: int)
    requires
        0 <= i <= strati.len(),
        forall|j: int| 0 <= j < strati.len() ==> matrice_valida(#[trigger] strati[j]),
        forall|j: int| 0 <= j < strati.len() ==> (#[trigger] strati[j]).righe >= 1,
        st.blocco == Seq::<Seq<Seq<u8>>>::empty(),
    ensures
        carica_righe(st, linee_blocchi(strati, i), 0) == Ok::<
            StatoCarica,
            crate::errori::ErroreRete,
        >(
            StatoCarica {
                tasso: st.tasso,
                funzioni: st.funzioni,
                dimensioni: st.dimensioni,
                strati: st.strati + strati.skip(i),
                blocco: Seq::empty(),
            },
        ),
    decreases strati.len() - i,
{
    if i == strati.len() {
        assert(linee_blocchi(strati, i) == Seq::<Seq<u8>>::empty());
        assert(st.strati + strati.skip(i) =~= st.strati);
        let st_atteso = StatoCarica {
            tasso: st.tasso,
            funzioni: st.funzioni,
            dimensioni: st.dimensioni,
            strati: st.strati + strati.skip(i),
            blocco: Seq::empty(),
        };
        assert(st == st_atteso);
    } else {
        let m = strati[i];
        assert(righe_di(m).take(0) =~= Seq::<Seq<Seq<u8>>>::empty());
        lemma_carica_strato(st, m, 0, linee_blocchi(strati, i + 1));
        let st2 = StatoCarica {
            tasso: st.tasso,
            funzioni: st.funzioni,
            dimensioni: st.dimensioni,
            strati: st.strati.push(m),
            blocco: Seq::empty(),
        };
        lemma_carica_blocchi(st2, strati, i + 1);
        assert(st.strati.push(m) + strati.skip(i + 1) =~= st.strati + strati.skip(i));
    }
}

/// Le righe di testo dei blocchi scritti sono le righe delle matrici e le
/// righe separatrici, nell'ordine.
pub proof fn lemma_righe_blocchi(strati: Seq<MatriceVista>, i: int)
    requires
        0 <= i <= strati.len(),
        forall|j: int| 0 <= j < strati.len() ==> matrice_valida(#[trigger] strati[j]),
    ensures
        righe(blocchi_da(strati, i)) == linee_blocchi(strati, i),
    decreases strati.len() - i,
{
    if i == strati.len() {
        assert(blocchi_da(strati, i) == Seq::<u8>::empty());
    } else {
        lemma_righe_blocchi(strati, i + 1);
        let m = strati[i];
        lemma_righe_strato_testo(m, 0, blocchi_da(strati, i + 1));
        assert(blocchi_da(strati, i) =~= righe_strato_da(m, 0) + (separatore_strato() + seq![
            10u8,
        ] + blocchi_da(strati, i + 1)));
        assert(linee_blocchi(strati, i) =~= linee_strato(m, 0) + linee_blocchi(strati, i + 1));
    }
}

/// Le righe di testo di un blocco: le righe della matrice dalla `r` in
/// poi, la separatrice, e poi le righe del resto del testo.
pub proof fn lemma_righe_strato_testo(m: MatriceVista, r: int, resto: Seq<u8>)
    requires
        matrice_valida(m),
        0 <= r <= m.righe,
    ensures
        righe(righe_strato_da(m, r) + (separatore_strato() + seq![10u8] + resto)) == linee_strato(
            m,
            r,
        ) + righe(resto),
    decreases m.righe - r,
{
    if r == m.righe {
        assert(righe_strato_da(m, r) == Seq::<u8>::empty());
        assert(righe_strato_da(m, r) + (separatore_strato() + seq![10u8] + resto)
            =~= separatore_strato() + seq![10u8] + resto);
        lemma_righe_spezza(separatore_strato(), resto);
        assert(crate::dividi::togli_cr(separatore_strato()) == separatore_strato());
        assert(linee_strato(m, r) =~= seq![separatore_strato()]);
    } else {
        lemma_righe_strato_testo(m, r + 1, resto);
        lemma_riga_pulita(m, r, 0);
        let riga = riga_da(m, r, 0);
        assert forall|j: int| 0 <= j < riga.len() implies riga[j] != 10 by {
            assert(byte_di_token(riga[j]) || riga[j] == (' ' as u8));
        }
        let dopo = righe_strato_da(m, r + 1) + (separatore_strato() + seq![10u8] + resto);
        assert(righe_strato_da(m, r) + (separatore_strato() + seq![10u8] + resto) =~= riga + seq![
            10u8,
        ] + dopo);
        lemma_righe_spezza(riga, dopo);
        assert(crate::dividi::togli_cr(riga) == riga) by {
            if riga.len() > 0 {
                assert(byte_di_token(riga.last()) || riga.last() == (' ' as u8));
            }
        }
        assert(linee_strato(m, r) =~= seq![riga] + linee_strato(m, r + 1));
    }
}

/// Le righe del testo scritto dal salvataggio: le tre intestazioni e poi
/// le righe dei blocchi.
pub proof fn lemma_righe_serializza(v: ReteVista)
    requires
        rete_valida(v),
    ensures
        righe(spec_serializza(v)) == seq![
            linea_tasso(v.tasso),
            linea_attivazioni(v.funzioni),
            linea_topologia(v.dimensioni),
        ] + linee_blocchi(v.strati, 0),
{
    let l1 = linea_tasso(v.tasso);
    let l2 = linea_attivazioni(v.funzioni);
    let l3 = linea_topologia(v.dimensioni);
    let resto3 = blocchi_da(v.strati, 0);
    let resto2 = l3 + seq![10u8] + resto3;
    let resto1 = l2 + seq![10u8] + resto2;
    assert(spec_serializza(v) =~= l1 + seq![10u8] + resto1);
    lemma_byte_token(v.tasso);
    assert forall|j: int| 0 <= j < l1.len() implies l1[j] != 10 && l1[j] != 13 by {
        if j >= 5 {
            assert(l1[j] == v.tasso[j - 5]);
            assert(byte_di_token(v.tasso[j - 5]));
        }
    }
    lemma_righe_spezza(l1, resto1);
    assert(crate::dividi::togli_cr(l1) == l1);
    lemma_codici_puliti(v.funzioni, 0);
    assert forall|j: int| 0 <= j < l2.len() implies l2[j] != 10 && l2[j] != 13 by {
        if j >= 5 {
            assert(l2[j] == codici_da(v.funzioni, 0)[j - 5]);
        }
    }
    lemma_righe_spezza(l2, resto2);
    assert(crate::dividi::togli_cr(l2) == l2);
    lemma_topologia_pulita(v.dimensioni, 0);
    assert forall|j: int| 0 <= j < l3.len() implies l3[j] != 10 && l3[j] != 13 by {
        if j >= 5 {
            assert(l3[j] == topologia_da(v.dimensioni, 0)[j - 5]);
            assert(cifra(l3[j]) || l3[j] == (',' as u8) || l3[j] == (' ' as u8));
        }
    }
    lemma_righe_spezza(l3, resto3);
    assert(crate::dividi::togli_cr(l3) == l3);
    lemma_righe_blocchi(v.strati, 0);
    assert(righe(spec_serializza(v)) =~= seq![l1, l2, l3] + linee_blocchi(v.strati, 0));
}

/// Andata e ritorno della codifica: per ogni rete ben formata, con almeno
/// un neurone in ogni strato dopo l'ingresso e un tasso dal valore
/// maggiore di zero (o pari allo zero con cui la lettura comincia), la
/// rilettura del testo scritto dal salvataggio rende la stessa rete.
pub proof fn lemma_andata_ritorno(v: ReteVista)
    requires
        rete_valida(v),
        forall|i: int| 1 <= i < v.dimensioni.len() ==> v.dimensioni[i] >= 1,
        token_positivo(v.tasso) || v.tasso == seq![('0' as u8)],
    ensures
        spec_deserializza(spec_serializza(v)) == Ok::<ReteVista, crate::errori::ErroreRete>(v),
{
    lemma_righe_serializza(v);
    let l1 = linea_tasso(v.tasso);
    let l2 = linea_attivazioni(v.funzioni);
    let l3 = linea_topologia(v.dimensioni);
    let lb = linee_blocchi(v.strati, 0);
    let tutte = seq![l1, l2, l3] + lb;
    let st0 = stato_iniziale();
    lemma_passo_tasso(st0, v.tasso);
    let st1 = StatoCarica {
        tasso: v.tasso,
        funzioni: st0.funzioni,
        dimensioni: st0.dimensioni,
        strati: st0.strati,
        blocco: st0.blocco,
    };
    assert(passo_carica(st0, l1) == Ok::<StatoCarica, crate::errori::ErroreRete>(st1)) by {
        if !token_positivo(v.tasso) {
            assert(v.tasso == seq![('0' as u8)]);
            assert(st0.tasso == v.tasso);
        }
    }
    assert(tutte[0] == l1);
    assert(carica_righe(st0, tutte, 0) == carica_righe(st1, tutte, 1));
    lemma_carica_appendice(st1, seq![l1], seq![l2, l3] + lb, 0);
    assert(seq![l1] + (seq![l2, l3] + lb) =~= tutte);
    let code2 = seq![l2, l3] + lb;
    lemma_passo_attivazioni(st1, v.funzioni);
    let st2 = StatoCarica {
        tasso: st1.tasso,
        funzioni: Seq::<FunzioneVista>::empty() + v.funzioni,
        dimensioni: st1.dimensioni,
        strati: st1.strati,
        blocco: st1.blocco,
    };
    assert(code2[0] == l2);
    assert(carica_righe(st1, code2, 0) == carica_righe(st2, code2, 1));
    lemma_carica_appendice(st2, seq![l2], seq![l3] + lb, 0);
    assert(seq![l2] + (seq![l3] + lb) =~= code2);
    let code3 = seq![l3] + lb;
    lemma_passo_topologia(st2, v.dimensioni);
    let st3 = StatoCarica {
        tasso: st2.tasso,
        funzioni: st2.funzioni,
        dimensioni: v.dimensioni,
        strati: st2.strati,
        blocco: st2.blocco,
    };
    assert(code3[0] == l3);
    assert(carica_righe(st2, code3, 0) == carica_righe(st3, code3, 1));
    lemma_carica_appendice(st3, seq![l3], lb, 0);
    assert(seq![l3] + lb =~= code3);
    assert forall|j: int| 0 <= j < v.strati.len() implies (#[trigger] v.strati[j]).righe >= 1 by {
        assert(v.strati[j].righe == v.dimensioni[j + 1]);
    }
    lemma_carica_blocchi(st3, v.strati, 0);
    let st4 = StatoCarica {
        tasso: st3.tasso,
        funzioni: st3.funzioni,
        dimensioni: st3.dimensioni,
        strati: st3.strati + v.strati.skip(0),
        blocco: Seq::empty(),
    };
    assert(carica_righe(st0, tutte, 0) == Ok::<StatoCarica, crate::errori::ErroreRete>(st4));
    assert(st4.funzioni =~= v.funzioni);
    assert(st4.strati =~= v.strati);
    assert(st4.funzioni.len() >= 1);
    assert(st4.dimensioni.len() >= 1);
    assert(forme_giuste(st4.strati, st4.dimensioni));
    let risultato = fine_carica(st4)->Ok_0;
    assert(fine_carica(st4) == Ok::<ReteVista, crate::errori::ErroreRete>(risultato));
    assert(risultato == v);
}

/// Salvare, ricaricare e salvare di nuovo riscrive lo stesso identico
/// testo: topologia, tasso, codici delle attivazioni e ogni token dei
/// pesi restano immutati attraverso il giro completo.
pub proof fn lemma_salva_carica_salva(v: ReteVista)
    requires
        rete_valida(v),
        forall|i: int| 1 <= i < v.dimensioni.len() ==> v.dimensioni[i] >= 1,
        token_positivo(v.tasso) || v.tasso == seq![('0' as u8)],
    ensures
        spec_deserializza(spec_serializza(v)) matches Ok(riletta) && spec_serializza(riletta)
            == spec_serializza(v),
{
    lemma_andata_ritorno(v);
}


} // verus!
