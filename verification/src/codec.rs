//! La codifica testuale della rete: tre righe d'intestazione (tasso di
//! apprendimento, codici delle attivazioni, topologia) seguite, strato per
//! strato, dalle righe della matrice dei pesi chiuse dalla riga separatrice.
use crate::attivazione::analizza_codice_spec;
use crate::attivazione::codice_di;
use crate::attivazione::FunzioneVista;
use crate::dividi::divisione;
use crate::dividi::divisione_coppia;
use crate::dividi::inizia_con;
use crate::dividi::parole;
use crate::dividi::pulisci;
use crate::dividi::righe;
use crate::dividi::rifila;
use crate::errori::ErroreRete;
use crate::attivazione::FunzioneAttivazione;
use crate::attivazione::sotto_vettore_intero;
use crate::dividi::dividi_byte;
use crate::dividi::dividi_coppia;
use crate::dividi::dividi_righe;
use crate::dividi::inizia_con_esegui;
use crate::dividi::parole_di;
use crate::dividi::pulisci_vec;
use crate::dividi::rifila_vec;
use crate::dividi::sotto_vettore;
use crate::dividi::viste;
use crate::rete::casella;
use crate::rete::vedute_funzioni;
use crate::rete::vedute_matrici;
use crate::rete::viste_righe;
use crate::rete::Matrice;
use crate::testo::analizza_usize;
use crate::testo::e_token_numerico;
use crate::testo::e_token_positivo;
use crate::testo::uguali_byte;
use crate::rete::forme_giuste;
use crate::rete::matrice_valida;
use crate::rete::pesi_tutti_numerici;
use crate::rete::rete_valida;
use crate::rete::MatriceVista;
use crate::rete::ReteNeurale;
use crate::rete::ReteVista;
use crate::testo::cifre_usize;
use crate::testo::forma_usize;
use crate::testo::rappresentazione_usize;
use crate::testo::scrivi_usize;
use crate::testo::token_numerico;
use crate::testo::token_positivo;
use crate::testo::valore_decimale;
use vstd::prelude::*;

verus! {

/// Il prefisso della riga del tasso di apprendimento.
pub open spec fn tag_apprendimento() -> Seq<u8> {
    seq![('[' as u8), ('+' as u8), (']' as u8), (' ' as u8)]
}

/// Il prefisso della riga delle funzioni di attivazione.
pub open spec fn tag_attivazione() -> Seq<u8> {
    seq![('[' as u8), ('*' as u8), (']' as u8), (' ' as u8)]
}

/// Il prefisso della riga della topologia.
pub open spec fn tag_rete() -> Seq<u8> {
    seq![('[' as u8), ('#' as u8), (']' as u8), (' ' as u8)]
}

/// La riga che chiude il blocco dei pesi di uno strato.
pub open spec fn separatore_strato() -> Seq<u8> {
    seq![('-' as u8), ('-' as u8), ('-' as u8)]
}

pub fn vettore_tag_apprendimento() -> (r: Vec<u8>)
    ensures
        r@ == tag_apprendimento(),
{
    let mut r: Vec<u8> = Vec::new();
    r.push('[' as u8);
    r.push('+' as u8);
    r.push(']' as u8);
    r.push(' ' as u8);
    assert(r@ =~= tag_apprendimento());
    r
}

pub fn vettore_tag_attivazione() -> (r: Vec<u8>)
    ensures
        r@ == tag_attivazione(),
{
    let mut r: Vec<u8> = Vec::new();
    r.push('[' as u8);
    r.push('*' as u8);
    r.push(']' as u8);
    r.push(' ' as u8);
    assert(r@ =~= tag_attivazione());
    r
}

pub fn vettore_tag_rete() -> (r: Vec<u8>)
    ensures
        r@ == tag_rete(),
{
    let mut r: Vec<u8> = Vec::new();
    r.push('[' as u8);
    r.push('#' as u8);
    r.push(']' as u8);
    r.push(' ' as u8);
    assert(r@ =~= tag_rete());
    r
}

pub fn vettore_separatore_strato() -> (r: Vec<u8>)
    ensures
        r@ == separatore_strato(),
{
    let mut r: Vec<u8> = Vec::new();
    r.push('-' as u8);
    r.push('-' as u8);
    r.push('-' as u8);
    assert(r@ =~= separatore_strato());
    r
}

/// Accoda una copia del pezzo al vettore.
pub fn aggiungi(fuori: &mut Vec<u8>, pezzo: &Vec<u8>)
    ensures
        final (fuori)@ == old(fuori)@ + pezzo@,
{
    let mut i: usize = 0;
    while i < pezzo.len()
        invariant
            i <= pezzo.len(),
            fuori@ == old(fuori)@ + pezzo@.take(i as int),
        decreases pezzo.len() - i,
    {
        fuori.push(pezzo[i]);
        proof {
            assert(old(fuori)@ + pezzo@.take(i + 1) =~= (old(fuori)@ + pezzo@.take(i as int)).push(
                pezzo@[i as int],
            ));
        }
        i += 1;
    }
    proof {
        assert(pezzo@.take(pezzo@.len() as int) =~= pezzo@);
    }
}

/// I codici delle funzioni dalla posizione `i` in poi, ciascuno seguito da
/// punto e virgola e spazio.
pub open spec fn codici_da(fs: Seq<FunzioneVista>, i: int) -> Seq<u8>
    decreases fs.len() - i,
{
    if i < 0 || i >= fs.len() {
        Seq::empty()
    } else {
        codice_di(fs[i]) + seq![(';' as u8), (' ' as u8)] + codici_da(fs, i + 1)
    }
}

/// La topologia dalla posizione `i` in poi, numeri separati da virgola e
/// spazio.
pub open spec fn topologia_da(dimensioni: Seq<usize>, i: int) -> Seq<u8>
    decreases dimensioni.len() - i,
{
    if i < 0 || i >= dimensioni.len() {
        Seq::empty()
    } else if i == dimensioni.len() - 1 {
        rappresentazione_usize(dimensioni[i] as int)
    } else {
        rappresentazione_usize(dimensioni[i] as int) + seq![(',' as u8), (' ' as u8)]
            + topologia_da(dimensioni, i + 1)
    }
}

/// Una riga della matrice dalla colonna `c` in poi, token separati da uno
/// spazio.
pub open spec fn riga_da(m: MatriceVista, r: int, c: int) -> Seq<u8>
    decreases m.colonne - c,
{
    if c < 0 || c >= m.colonne {
        Seq::empty()
    } else if c == m.colonne - 1 {
        casella(m, r, c)
    } else {
        casella(m, r, c) + seq![(' ' as u8)] + riga_da(m, r, c + 1)
    }
}

/// Le righe della matrice dalla riga `r` in poi, ciascuna chiusa da un
/// a capo.
pub open spec fn righe_strato_da(m: MatriceVista, r: int) -> Seq<u8>
    decreases m.righe - r,
{
    if r < 0 || r >= m.righe {
        Seq::empty()
    } else {
        riga_da(m, r, 0) + seq![10u8] + righe_strato_da(m, r + 1)
    }
}

/// Il blocco di uno strato: le righe della matrice e la riga separatrice.
pub open spec fn blocco_testo(m: MatriceVista) -> Seq<u8> {
    righe_strato_da(m, 0) + separatore_strato() + seq![10u8]
}

/// I blocchi degli strati dalla posizione `i` in poi.
pub open spec fn blocchi_da(strati: Seq<MatriceVista>, i: int) -> Seq<u8>
    decreases strati.len() - i,
{
    if i < 0 || i >= strati.len() {
        Seq::empty()
    } else {
        blocco_testo(strati[i]) + blocchi_da(strati, i + 1)
    }
}

/// Il testo completo del salvataggio della rete: le tre intestazioni e poi
/// i blocchi dei pesi, nell'ordine degli strati.
pub open spec fn spec_serializza(v: ReteVista) -> Seq<u8> {
    tag_apprendimento() + seq![(' ' as u8)] + v.tasso + seq![10u8] + tag_attivazione() + seq![
        (' ' as u8),
    ] + codici_da(v.funzioni, 0) + seq![10u8] + tag_rete() + seq![(' ' as u8)] + topologia_da(
        v.dimensioni,
        0,
    ) + seq![10u8] + blocchi_da(v.strati, 0)
}

/// Ribalta una matrice data come righe di token: la riga `i` del
/// risultato e' la colonna `i` delle righe d'origine. E' il passo che
/// porta le righe lette dal testo nella disposizione colonna per colonna
/// delle matrici dei pesi.
pub fn trasponi(matrice: &Vec<Vec<Vec<u8>>>) -> (r: Vec<Vec<Vec<u8>>>)
    requires
        forall|i: int|
            0 <= i < matrice@.len() ==> (#[trigger] matrice@[i]@).len() == matrice@[0]@.len(),
    ensures
        r@.len() == if matrice@.len() == 0 {
            0int
        } else {
            matrice@[0]@.len() as int
        },
        forall|i: int| 0 <= i < r@.len() ==> (#[trigger] r@[i]@).len() == matrice@.len(),
        forall|i: int, j: int|
            0 <= i < r@.len() && 0 <= j < matrice@.len() ==> (#[trigger] r@[i]@[j]@) == matrice@[
                j
            ]@[i]@,
{
    let mut r: Vec<Vec<Vec<u8>>> = Vec::new();
    if matrice.len() == 0 {
        return r;
    }
    let colonne = matrice[0].len();
    let mut i: usize = 0;
    while i < colonne
        invariant
            i <= colonne,
            colonne == matrice@[0]@.len(),
            forall|k: int|
                0 <= k < matrice@.len() ==> (#[trigger] matrice@[k]@).len() == matrice@[0]@.len(),
            r@.len() == i,
            forall|k: int| 0 <= k < i ==> (#[trigger] r@[k]@).len() == matrice@.len(),
            forall|k: int, j: int|
                0 <= k < i && 0 <= j < matrice@.len() ==> (#[trigger] r@[k]@[j]@) == matrice@[j]@[
                    k
                ]@,
        decreases colonne - i,
    {
        let mut colonna: Vec<Vec<u8>> = Vec::new();
        let mut j: usize = 0;
        while j < matrice.len()
            invariant
                j <= matrice.len(),
                i < colonne,
                colonne == matrice@[0]@.len(),
                forall|k: int|
                    0 <= k < matrice@.len() ==> (#[trigger] matrice@[k]@).len()
                        == matrice@[0]@.len(),
                colonna@.len() == j,
                forall|k: int|
                    0 <= k < j ==> (#[trigger] colonna@[k]@) == matrice@[k]@[i as int]@,
            decreases matrice.len() - j,
        {
            colonna.push(sotto_vettore_intero(&matrice[j][i]));
            j += 1;
        }
        r.push(colonna);
        i += 1;
    }
    r
}

/// Lo stato della lettura del testo, riga dopo riga.
pub struct StatoCarica {
    pub tasso: Seq<u8>,
    pub funzioni: Seq<FunzioneVista>,
    pub dimensioni: Seq<usize>,
    pub strati: Seq<MatriceVista>,
    pub blocco: Seq<Seq<Seq<u8>>>,
}

/// Lo stato con cui la lettura comincia: tasso zero, nessuna funzione,
/// nessuna dimensione, nessuno strato.
pub open spec fn stato_iniziale() -> StatoCarica {
    StatoCarica {
        tasso: seq![('0' as u8)],
        funzioni: Seq::empty(),
        dimensioni: Seq::empty(),
        strati: Seq::empty(),
        blocco: Seq::empty(),
    }
}

/// Lettura della riga del tasso: il secondo pezzo fra gli spazi dopo il
/// prefisso dev'essere un token numerico; il tasso cambia solo se il token
/// scrive un valore maggiore di zero.
pub open spec fn analizza_tasso(linea: Seq<u8>) -> Result<Option<Seq<u8>>, ErroreRete> {
    let pezzi = divisione(linea.skip(4), ' ' as u8);
    if pezzi.len() < 2 {
        Err(ErroreRete::IntestazioneIncompleta)
    } else if !token_numerico(pezzi[1]) {
        Err(ErroreRete::TokenNonNumerico)
    } else if token_positivo(pezzi[1]) {
        Ok(Some(pezzi[1]))
    } else {
        Ok(None)
    }
}

/// Lettura dei codici di attivazione dai pezzi della riga: ogni pezzo,
/// spogliato di punti e virgola e spazi, se non vuoto diventa una funzione
/// in coda alla lista.
pub open spec fn aggiungi_codici(
    funzioni: Seq<FunzioneVista>,
    pezzi: Seq<Seq<u8>>,
    i: int,
) -> Result<Seq<FunzioneVista>, ErroreRete>
    decreases pezzi.len() - i,
{
    if i < 0 || i >= pezzi.len() {
        Ok(funzioni)
    } else {
        let pulito = pulisci(pezzi[i]);
        if pulito.len() == 0 {
            aggiungi_codici(funzioni, pezzi, i + 1)
        } else {
            match analizza_codice_spec(pulito) {
                Ok(f) => aggiungi_codici(funzioni.push(f), pezzi, i + 1),
                Err(e) => Err(e),
            }
        }
    }
}

/// Lettura dei numeri della topologia dai pezzi della riga.
pub open spec fn leggi_numeri(pezzi: Seq<Seq<u8>>, i: int) -> Result<Seq<usize>, ErroreRete>
    decreases pezzi.len() - i,
{
    if i < 0 || i >= pezzi.len() {
        Ok(Seq::empty())
    } else if forma_usize(pezzi[i]) && valore_decimale(cifre_usize(pezzi[i])) <= usize::MAX {
        match leggi_numeri(pezzi, i + 1) {
            Ok(resto) => Ok(
                seq![(valore_decimale(cifre_usize(pezzi[i])) as usize)] + resto,
            ),
            Err(e) => Err(e),
        }
    } else {
        Err(ErroreRete::TopologiaNonValida)
    }
}

/// Tutte le righe del blocco hanno la lunghezza della prima.
pub open spec fn blocco_rettangolare(blocco: Seq<Seq<Seq<u8>>>) -> bool {
    forall|i: int| 0 <= i < blocco.len() ==> (#[trigger] blocco[i]).len() == blocco[0].len()
}

/// Chiusura del blocco dei pesi: vietato il blocco vuoto e le righe
/// disuguali; le righe raccolte, trasposte, riempiono la matrice colonna
/// per colonna.
pub open spec fn chiudi_matrice(blocco: Seq<Seq<Seq<u8>>>) -> Result<MatriceVista, ErroreRete> {
    if blocco.len() == 0 {
        Err(ErroreRete::BloccoVuoto)
    } else if !blocco_rettangolare(blocco) {
        Err(ErroreRete::RigheIrregolari)
    } else {
        Ok(
            MatriceVista {
                righe: blocco.len() as int,
                colonne: blocco[0].len() as int,
                pesi: Seq::new(
                    (blocco.len() * blocco[0].len()) as nat,
                    |k: int| blocco[k % blocco.len() as int][k / blocco.len() as int],
                ),
            },
        )
    }
}

/// Lettura di una riga di pesi: le parole fra spazi bianchi, tutte token
/// numerici.
pub open spec fn leggi_riga_pesi(linea: Seq<u8>) -> Result<Seq<Seq<u8>>, ErroreRete> {
    if pesi_tutti_numerici(parole(linea)) {
        Ok(parole(linea))
    } else {
        Err(ErroreRete::TokenNonNumerico)
    }
}

/// Un passo della lettura: la riga cambia lo stato secondo il suo prefisso;
/// una riga che non e' intestazione ne' separatore e' una riga di pesi.
pub open spec fn passo_carica(st: StatoCarica, linea: Seq<u8>) -> Result<StatoCarica, ErroreRete> {
    if inizia_con(linea, tag_apprendimento()) {
        match analizza_tasso(linea) {
            Ok(Some(t)) => Ok(StatoCarica { tasso: t, ..st }),
            Ok(None) => Ok(st),
            Err(e) => Err(e),
        }
    } else if inizia_con(linea, tag_attivazione()) {
        match aggiungi_codici(
            st.funzioni,
            divisione_coppia(rifila(linea.skip(4)), ';' as u8, ' ' as u8),
            0,
        ) {
            Ok(fs) => Ok(StatoCarica { funzioni: fs, ..st }),
            Err(e) => Err(e),
        }
    } else if inizia_con(linea, tag_rete()) {
        match leggi_numeri(divisione_coppia(rifila(linea.skip(4)), ',' as u8, ' ' as u8), 0) {
            Ok(ds) => Ok(StatoCarica { dimensioni: ds, ..st }),
            Err(e) => Err(e),
        }
    } else if rifila(linea) == separatore_strato() {
        match chiudi_matrice(st.blocco) {
            Ok(m) => Ok(StatoCarica { strati: st.strati.push(m), blocco: Seq::empty(), ..st }),
            Err(e) => Err(e),
        }
    } else {
        match leggi_riga_pesi(linea) {
            Ok(ts) => Ok(StatoCarica { blocco: st.blocco.push(ts), ..st }),
            Err(e) => Err(e),
        }
    }
}

/// La lettura di tutte le righe dalla posizione `i` in poi.
pub open spec fn carica_righe(st: StatoCarica, linee: Seq<Seq<u8>>, i: int) -> Result<
    StatoCarica,
    ErroreRete,
>
    decreases linee.len() - i,
{
    if i < 0 || i >= linee.len() {
        Ok(st)
    } else {
        match passo_carica(st, linee[i]) {
            Ok(st2) => carica_righe(st2, linee, i + 1),
            Err(e) => Err(e),
        }
    }
}

/// La chiusura della lettura: servono almeno una funzione di attivazione e
/// una topologia con cui le matrici raccolte combaciano; righe di pesi
/// rimaste senza riga separatrice cadono.
pub open spec fn fine_carica(st: StatoCarica) -> Result<ReteVista, ErroreRete> {
    if st.funzioni.len() == 0 {
        Err(ErroreRete::AttivazioniMancanti)
    } else if st.dimensioni.len() < 1 || !forme_giuste(st.strati, st.dimensioni) {
        Err(ErroreRete::DimensioniIncoerenti)
    } else {
        Ok(
            ReteVista {
                strati: st.strati,
                funzioni: st.funzioni,
                tasso: st.tasso,
                dimensioni: st.dimensioni,
            },
        )
    }
}

/// La lettura dell'intero testo di salvataggio.
pub open spec fn spec_deserializza(testo: Seq<u8>) -> Result<ReteVista, ErroreRete> {
    match carica_righe(stato_iniziale(), righe(testo), 0) {
        Ok(st) => fine_carica(st),
        Err(e) => Err(e),
    }
}

/// Lo stato di lettura corrispondente ai valori eseguibili raccolti.
pub open spec fn stato_di(
    tasso: Seq<u8>,
    funzioni: Seq<FunzioneAttivazione>,
    dimensioni: Seq<usize>,
    strati: Seq<Matrice>,
    blocco: Seq<Vec<Vec<u8>>>,
) -> StatoCarica {
    StatoCarica {
        tasso: tasso,
        funzioni: vedute_funzioni(funzioni),
        dimensioni: dimensioni,
        strati: vedute_matrici(strati),
        blocco: viste_righe(blocco),
    }
}

/// Il risultato dei numeri gia' letti seguiti da quelli che restano.
pub open spec fn con_prefisso(prefisso: Seq<usize>, resto: Result<Seq<usize>, ErroreRete>) -> Result<
    Seq<usize>,
    ErroreRete,
> {
    match resto {
        Ok(s) => Ok(prefisso + s),
        Err(e) => Err(e),
    }
}

impl ReteNeurale {
    /// Scrive la rete nel formato testuale di salvataggio.
    pub fn serializza(&self) -> (r: Vec<u8>)
        requires
            rete_valida(self@),
        ensures
            r@ == spec_serializza(self@),
    {
        let mut fuori = vettore_tag_apprendimento();
        fuori.push(' ' as u8);
        aggiungi(&mut fuori, &self.tasso_apprendimento);
        fuori.push(10);
        let ghost dopo_tasso = tag_apprendimento() + seq![(' ' as u8)] + self@.tasso + seq![10u8];
        proof {
            assert(fuori@ =~= dopo_tasso);
        }
        let tag_att = vettore_tag_attivazione();
        aggiungi(&mut fuori, &tag_att);
        fuori.push(' ' as u8);
        let ghost base_codici = dopo_tasso + tag_attivazione() + seq![(' ' as u8)];
        proof {
            assert(fuori@ =~= base_codici);
        }
        let ghost fs = self@.funzioni;
        let mut i: usize = 0;
        while i < self.funzioni_attivazione.len()
            invariant
                i <= self.funzioni_attivazione.len(),
                fs == self@.funzioni,
                fs.len() == self.funzioni_attivazione.len(),
                fuori@ + codici_da(fs, i as int) =~= base_codici + codici_da(fs, 0),
            decreases self.funzioni_attivazione.len() - i,
        {
            let codice = self.funzioni_attivazione[i].codice();
            aggiungi(&mut fuori, &codice);
            fuori.push(';' as u8);
            fuori.push(' ' as u8);
            proof {
                assert(codice@ == codice_di(fs[i as int]));
                assert(codici_da(fs, i as int) == codice_di(fs[i as int]) + seq![
                    (';' as u8),
                    (' ' as u8),
                ] + codici_da(fs, i + 1));
                assert(fuori@ + codici_da(fs, i + 1) =~= base_codici + codici_da(fs, 0));
            }
            i += 1;
        }
        fuori.push(10);
        let ghost dopo_codici = base_codici + codici_da(fs, 0) + seq![10u8];
        proof {
            assert(codici_da(fs, fs.len() as int) == Seq::<u8>::empty());
            assert(fuori@ =~= dopo_codici);
        }
        let tag_topologia = vettore_tag_rete();
        aggiungi(&mut fuori, &tag_topologia);
        fuori.push(' ' as u8);
        let ghost base_topologia = dopo_codici + tag_rete() + seq![(' ' as u8)];
        proof {
            assert(fuori@ =~= base_topologia);
        }
        let ghost dims = self@.dimensioni;
        let mut i: usize = 0;
        while i < self.dimensioni_strati.len()
            invariant
                i <= self.dimensioni_strati.len(),
                dims == self@.dimensioni,
                dims.len() == self.dimensioni_strati.len(),
                fuori@ + topologia_da(dims, i as int) =~= base_topologia + topologia_da(dims, 0),
            decreases self.dimensioni_strati.len() - i,
        {
            let numero = scrivi_usize(self.dimensioni_strati[i]);
            aggiungi(&mut fuori, &numero);
            if i + 1 < self.dimensioni_strati.len() {
                fuori.push(',' as u8);
                fuori.push(' ' as u8);
                proof {
                    assert(topologia_da(dims, i as int) == rappresentazione_usize(
                        dims[i as int] as int,
                    ) + seq![(',' as u8), (' ' as u8)] + topologia_da(dims, i + 1));
                    assert(fuori@ + topologia_da(dims, i + 1) =~= base_topologia + topologia_da(
                        dims,
                        0,
                    ));
                }
            } else {
                proof {
                    assert(topologia_da(dims, i as int) == rappresentazione_usize(
                        dims[i as int] as int,
                    ));
                    assert(topologia_da(dims, i + 1) == Seq::<u8>::empty());
                    assert(fuori@ + topologia_da(dims, i + 1) =~= base_topologia + topologia_da(
                        dims,
                        0,
                    ));
                }
            }
            i += 1;
        }
        fuori.push(10);
        let ghost dopo_topologia = base_topologia + topologia_da(dims, 0) + seq![10u8];
        proof {
            assert(topologia_da(dims, dims.len() as int) == Seq::<u8>::empty());
            assert(fuori@ =~= dopo_topologia);
        }
        let ghost strati = self@.strati;
        let separatore = vettore_separatore_strato();
        let mut i: usize = 0;
        while i < self.strati.len()
            invariant
                i <= self.strati.len(),
                strati == self@.strati,
                strati.len() == self.strati.len(),
                rete_valida(self@),
                separatore@ == separatore_strato(),
                fuori@ + blocchi_da(strati, i as int) =~= dopo_topologia + blocchi_da(strati, 0),
            decreases self.strati.len() - i,
        {
            let matrice = &self.strati[i];
            let ghost m = strati[i as int];
            proof {
                assert(m == self.strati@[i as int]@);
                assert(matrice_valida(m));
            }
            let ghost base_blocco = fuori@;
            let mut r: usize = 0;
            while r < matrice.righe
                invariant
                    r <= matrice.righe,
                    m == matrice@,
                    matrice_valida(m),
                    fuori@ + righe_strato_da(m, r as int) =~= base_blocco + righe_strato_da(m, 0),
                decreases matrice.righe - r,
            {
                let mut c: usize = 0;
                let ghost base_riga = fuori@;
                while c < matrice.colonne
                    invariant
                        c <= matrice.colonne,
                        r < matrice.righe,
                        m == matrice@,
                        matrice_valida(m),
                        fuori@ + riga_da(m, r as int, c as int) =~= base_riga + riga_da(
                            m,
                            r as int,
                            0,
                        ),
                    decreases matrice.colonne - c,
                {
                    let valore = matrice.valore(r, c);
                    aggiungi(&mut fuori, &valore);
                    if c + 1 < matrice.colonne {
                        fuori.push(' ' as u8);
                        proof {
                            assert(riga_da(m, r as int, c as int) == casella(m, r as int, c as int)
                                + seq![(' ' as u8)] + riga_da(m, r as int, c + 1));
                            assert(fuori@ + riga_da(m, r as int, c + 1) =~= base_riga + riga_da(
                                m,
                                r as int,
                                0,
                            ));
                        }
                    } else {
                        proof {
                            assert(riga_da(m, r as int, c as int) == casella(
                                m,
                                r as int,
                                c as int,
                            ));
                            assert(riga_da(m, r as int, c + 1) == Seq::<u8>::empty());
                            assert(fuori@ + riga_da(m, r as int, c + 1) =~= base_riga + riga_da(
                                m,
                                r as int,
                                0,
                            ));
                        }
                    }
                    c += 1;
                }
                fuori.push(10);
                proof {
                    assert(riga_da(m, r as int, matrice@.colonne) == Seq::<u8>::empty());
                    assert(fuori@ =~= base_riga + riga_da(m, r as int, 0) + seq![10u8]);
                    assert(righe_strato_da(m, r as int) == riga_da(m, r as int, 0) + seq![10u8]
                        + righe_strato_da(m, r + 1));
                    assert(fuori@ + righe_strato_da(m, r + 1) =~= base_blocco + righe_strato_da(
                        m,
                        0,
                    ));
                }
                r += 1;
            }
            aggiungi(&mut fuori, &separatore);
            fuori.push(10);
            proof {
                assert(righe_strato_da(m, m.righe) == Seq::<u8>::empty());
                assert(fuori@ =~= base_blocco + righe_strato_da(m, 0) + separatore_strato()
                    + seq![10u8]);
                assert(blocchi_da(strati, i as int) == blocco_testo(m) + blocchi_da(strati, i + 1));
                assert(fuori@ + blocchi_da(strati, i + 1) =~= dopo_topologia + blocchi_da(
                    strati,
                    0,
                ));
            }
            i += 1;
        }
        proof {
            assert(blocchi_da(strati, strati.len() as int) == Seq::<u8>::empty());
            assert(fuori@ =~= dopo_topologia + blocchi_da(strati, 0));
            assert(fuori@ =~= spec_serializza(self@));
        }
        fuori
    }
}

impl ReteNeurale {
    /// Legge una rete dal testo di salvataggio, riga per riga: le
    /// intestazioni per prefisso, le righe di pesi raccolte in blocchi
    /// chiusi dalla riga separatrice, e in coda il controllo che le matrici
    /// combacino con la topologia dichiarata.
    pub fn deserializza(testo: &Vec<u8>) -> (r: Result<ReteNeurale, ErroreRete>)
        ensures
            match r {
                Ok(rete) => spec_deserializza(testo@) == Ok::<ReteVista, ErroreRete>(rete@)
                    && rete_valida(rete@),
                Err(e) => spec_deserializza(testo@) == Err::<ReteVista, ErroreRete>(e),
            },
    {
        let linee = dividi_righe(testo);
        let ghost ll = righe(testo@);
        let mut tasso: Vec<u8> = Vec::new();
        tasso.push('0' as u8);
        let mut funzioni: Vec<FunzioneAttivazione> = Vec::new();
        let mut dimensioni: Vec<usize> = Vec::new();
        let mut strati: Vec<Matrice> = Vec::new();
        let mut blocco: Vec<Vec<Vec<u8>>> = Vec::new();
        let tag_app = vettore_tag_apprendimento();
        let tag_att = vettore_tag_attivazione();
        let tag_topo = vettore_tag_rete();
        let separatore = vettore_separatore_strato();
        proof {
            assert(tasso@ =~= seq![('0' as u8)]);
            assert(vedute_funzioni(funzioni@) =~= Seq::<FunzioneVista>::empty());
            assert(vedute_matrici(strati@) =~= Seq::<MatriceVista>::empty());
            assert(viste_righe(blocco@) =~= Seq::<Seq<Seq<u8>>>::empty());
            assert(stato_di(tasso@, funzioni@, dimensioni@, strati@, blocco@) == stato_iniziale());
        }
        let mut i: usize = 0;
        while i < linee.len()
            invariant
                i <= linee.len(),
                viste(linee@) == ll,
                ll == righe(testo@),
                tag_app@ == tag_apprendimento(),
                tag_att@ == tag_attivazione(),
                tag_topo@ == tag_rete(),
                separatore@ == separatore_strato(),
                token_numerico(tasso@),
                forall|j: int|
                    0 <= j < funzioni@.len() ==> crate::attivazione::funzione_valida(
                        #[trigger] vedute_funzioni(funzioni@)[j],
                    ),
                forall|j: int|
                    0 <= j < strati@.len() ==> matrice_valida(
                        #[trigger] vedute_matrici(strati@)[j],
                    ),
                forall|j: int|
                    0 <= j < blocco@.len() ==> pesi_tutti_numerici(
                        #[trigger] viste_righe(blocco@)[j],
                    ),
                carica_righe(stato_iniziale(), ll, 0) == carica_righe(
                    stato_di(tasso@, funzioni@, dimensioni@, strati@, blocco@),
                    ll,
                    i as int,
                ),
            decreases linee.len() - i,
        {
            let ghost st = stato_di(tasso@, funzioni@, dimensioni@, strati@, blocco@);
            let linea = &linee[i];
            let ghost l = ll[i as int];
            proof {
                assert(viste(linee@)[i as int] == linee@[i as int]@);
                assert(linea@ == l);
            }
            if inizia_con_esegui(linea, &tag_app) {
                let resto = sotto_vettore(linea, 4, linea.len());
                proof {
                    assert(resto@ =~= l.skip(4));
                }
                let pezzi = dividi_byte(&resto, ' ' as u8);
                let ghost pz = divisione(l.skip(4), ' ' as u8);
                proof {
                    assert(viste(pezzi@) == pz);
                }
                if pezzi.len() < 2 {
                    proof {
                        assert(passo_carica(st, l) == Err::<StatoCarica, ErroreRete>(
                            ErroreRete::IntestazioneIncompleta,
                        ));
                    }
                    return Err(ErroreRete::IntestazioneIncompleta);
                }
                let token = &pezzi[1];
                proof {
                    assert(token@ == viste(pezzi@)[1]);
                }
                if !e_token_numerico(token) {
                    proof {
                        assert(passo_carica(st, l) == Err::<StatoCarica, ErroreRete>(
                            ErroreRete::TokenNonNumerico,
                        ));
                    }
                    return Err(ErroreRete::TokenNonNumerico);
                }
                if e_token_positivo(token) {
                    tasso = sotto_vettore_intero(token);
                    proof {
                        assert(passo_carica(st, l) == Ok::<StatoCarica, ErroreRete>(
                            stato_di(tasso@, funzioni@, dimensioni@, strati@, blocco@),
                        ));
                    }
                } else {
                    proof {
                        assert(passo_carica(st, l) == Ok::<StatoCarica, ErroreRete>(st));
                    }
                }
            } else if inizia_con_esegui(linea, &tag_att) {
                let resto = sotto_vettore(linea, 4, linea.len());
                proof {
                    assert(resto@ =~= l.skip(4));
                }
                let ripulita = rifila_vec(&resto);
                let pezzi = dividi_coppia(&ripulita, ';' as u8, ' ' as u8);
                let ghost pz = divisione_coppia(rifila(l.skip(4)), ';' as u8, ' ' as u8);
                proof {
                    assert(viste(pezzi@) == pz);
                }
                let ghost fs0 = vedute_funzioni(funzioni@);
                let mut k: usize = 0;
                while k < pezzi.len()
                    invariant
                        k <= pezzi.len(),
                        viste(pezzi@) == pz,
                        ll == righe(testo@),
                        0 <= i < ll.len(),
                        l == ll[i as int],
                        carica_righe(stato_iniziale(), ll, 0) == carica_righe(st, ll, i as int),
                        !inizia_con(l, tag_apprendimento()),
                        inizia_con(l, tag_attivazione()),
                        pz == divisione_coppia(rifila(l.skip(4)), ';' as u8, ' ' as u8),
                        st.funzioni == fs0,
                        st.tasso == tasso@,
                        st.dimensioni == dimensioni@,
                        st.strati == vedute_matrici(strati@),
                        st.blocco == viste_righe(blocco@),
                        aggiungi_codici(fs0, pz, 0) == aggiungi_codici(
                            vedute_funzioni(funzioni@),
                            pz,
                            k as int,
                        ),
                        forall|j: int|
                            0 <= j < funzioni@.len() ==> crate::attivazione::funzione_valida(
                                #[trigger] vedute_funzioni(funzioni@)[j],
                            ),
                    decreases pezzi.len() - k,
                {
                    let pulito = pulisci_vec(&pezzi[k]);
                    proof {
                        assert(pezzi@[k as int]@ == pz[k as int]);
                        assert(pulito@ == pulisci(pz[k as int]));
                    }
                    if pulito.len() > 0 {
                        match FunzioneAttivazione::analizza_codice(&pulito) {
                            Ok(f) => {
                                proof {
                                    assert(crate::attivazione::funzione_valida(f@));
                                }
                                let ghost prima = vedute_funzioni(funzioni@);
                                funzioni.push(f);
                                proof {
                                    assert(vedute_funzioni(funzioni@) =~= prima.push(f@));
                                }
                            },
                            Err(e) => {
                                proof {
                                    assert(aggiungi_codici(fs0, pz, 0) == Err::<
                                        Seq<FunzioneVista>,
                                        ErroreRete,
                                    >(e));
                                    assert(passo_carica(st, l) == Err::<StatoCarica, ErroreRete>(
                                        e,
                                    ));
                                }
                                return Err(e);
                            },
                        }
                    }
                    k += 1;
                }
                proof {
                    assert(aggiungi_codici(vedute_funzioni(funzioni@), pz, pz.len() as int)
                        == Ok::<Seq<FunzioneVista>, ErroreRete>(vedute_funzioni(funzioni@)));
                    assert(passo_carica(st, l) == Ok::<StatoCarica, ErroreRete>(
                        stato_di(tasso@, funzioni@, dimensioni@, strati@, blocco@),
                    ));
                }
            } else if inizia_con_esegui(linea, &tag_topo) {
                let resto = sotto_vettore(linea, 4, linea.len());
                proof {
                    assert(resto@ =~= l.skip(4));
                }
                let ripulita = rifila_vec(&resto);
                let pezzi = dividi_coppia(&ripulita, ',' as u8, ' ' as u8);
                let ghost pz = divisione_coppia(rifila(l.skip(4)), ',' as u8, ' ' as u8);
                proof {
                    assert(viste(pezzi@) == pz);
                }
                let mut numeri: Vec<usize> = Vec::new();
                let mut k: usize = 0;
                proof {
                    assert(numeri@ =~= Seq::<usize>::empty());
                }
                while k < pezzi.len()
                    invariant
                        k <= pezzi.len(),
                        viste(pezzi@) == pz,
                        ll == righe(testo@),
                        0 <= i < ll.len(),
                        l == ll[i as int],
                        carica_righe(stato_iniziale(), ll, 0) == carica_righe(st, ll, i as int),
                        !inizia_con(l, tag_apprendimento()),
                        !inizia_con(l, tag_attivazione()),
                        inizia_con(l, tag_rete()),
                        pz == divisione_coppia(rifila(l.skip(4)), ',' as u8, ' ' as u8),
                        st == stato_di(tasso@, funzioni@, dimensioni@, strati@, blocco@),
                        leggi_numeri(pz, 0) == con_prefisso(numeri@, leggi_numeri(pz, k as int)),
                    decreases pezzi.len() - k,
                {
                    proof {
                        assert(pezzi@[k as int]@ == pz[k as int]);
                    }
                    match analizza_usize(&pezzi[k]) {
                        Some(v) => {
                            let ghost prima = numeri@;
                            numeri.push(v);
                            proof {
                                let ghost dopo = leggi_numeri(pz, k + 1);
                                assert(leggi_numeri(pz, k as int) == match dopo {
                                    Ok(resto_n) => Ok::<Seq<usize>, ErroreRete>(
                                        seq![v] + resto_n,
                                    ),
                                    Err(e) => Err::<Seq<usize>, ErroreRete>(e),
                                });
                                match dopo {
                                    Ok(resto_n) => {
                                        assert(prima + (seq![v] + resto_n) =~= numeri@ + resto_n);
                                    },
                                    Err(_) => {},
                                }
                            }
                        },
                        None => {
                            proof {
                                assert(leggi_numeri(pz, k as int) == Err::<Seq<usize>, ErroreRete>(
                                    ErroreRete::TopologiaNonValida,
                                ));
                                assert(leggi_numeri(pz, 0) == Err::<Seq<usize>, ErroreRete>(
                                    ErroreRete::TopologiaNonValida,
                                ));
                                assert(passo_carica(st, l) == Err::<StatoCarica, ErroreRete>(
                                    ErroreRete::TopologiaNonValida,
                                ));
                            }
                            return Err(ErroreRete::TopologiaNonValida);
                        },
                    }
                    k += 1;
                }
                dimensioni = numeri;
                proof {
                    assert(leggi_numeri(pz, pz.len() as int) == Ok::<Seq<usize>, ErroreRete>(
                        Seq::<usize>::empty(),
                    ));
                    assert(dimensioni@ + Seq::<usize>::empty() =~= dimensioni@);
                    assert(leggi_numeri(pz, 0) == Ok::<Seq<usize>, ErroreRete>(dimensioni@));
                    assert(passo_carica(st, l) == Ok::<StatoCarica, ErroreRete>(
                        stato_di(tasso@, funzioni@, dimensioni@, strati@, blocco@),
                    ));
                }
            } else {
                let ripulita = rifila_vec(linea);
                if uguali_byte(&ripulita, &separatore) {
                    if blocco.len() == 0 {
                        proof {
                            assert(viste_righe(blocco@).len() == 0);
                            assert(passo_carica(st, l) == Err::<StatoCarica, ErroreRete>(
                                ErroreRete::BloccoVuoto,
                            ));
                        }
                        return Err(ErroreRete::BloccoVuoto);
                    }
                    let ghost bv = viste_righe(blocco@);
                    let quante_righe = blocco.len();
                    let colonne = blocco[0].len();
                    proof {
                        assert(bv[0] == viste(blocco@[0]@));
                        assert(bv[0].len() == colonne);
                    }
                    let mut rr: usize = 1;
                    while rr < blocco.len()
                        invariant
                            1 <= rr <= blocco.len(),
                            ll == righe(testo@),
                            0 <= i < ll.len(),
                            l == ll[i as int],
                            carica_righe(stato_iniziale(), ll, 0) == carica_righe(st, ll, i as int),
                                !inizia_con(l, tag_apprendimento()),
                                !inizia_con(l, tag_attivazione()),
                                !inizia_con(l, tag_rete()),
                                rifila(l) == separatore_strato(),
                                st == stato_di(tasso@, funzioni@, dimensioni@, strati@, blocco@),
                            bv == viste_righe(blocco@),
                            bv.len() == blocco.len(),
                            colonne == bv[0].len(),
                            forall|j: int| 0 <= j < rr ==> (#[trigger] bv[j]).len() == colonne,
                        decreases blocco.len() - rr,
                    {
                        if blocco[rr].len() != colonne {
                            proof {
                                assert(bv[rr as int] == viste(blocco@[rr as int]@));
                                assert(bv[rr as int].len() != bv[0].len());
                                assert(!blocco_rettangolare(bv));
                                assert(passo_carica(st, l) == Err::<StatoCarica, ErroreRete>(
                                    ErroreRete::RigheIrregolari,
                                ));
                            }
                            return Err(ErroreRete::RigheIrregolari);
                        }
                        proof {
                            assert(bv[rr as int] == viste(blocco@[rr as int]@));
                        }
                        rr += 1;
                    }
                    proof {
                        assert(blocco_rettangolare(bv));
                    }
                    let mut pesi: Vec<Vec<u8>> = Vec::new();
                    let mut c: usize = 0;
                    while c < colonne
                        invariant
                            c <= colonne,
                            ll == righe(testo@),
                            0 <= i < ll.len(),
                            l == ll[i as int],
                            carica_righe(stato_iniziale(), ll, 0) == carica_righe(st, ll, i as int),
                                !inizia_con(l, tag_apprendimento()),
                                !inizia_con(l, tag_attivazione()),
                                !inizia_con(l, tag_rete()),
                                rifila(l) == separatore_strato(),
                                st == stato_di(tasso@, funzioni@, dimensioni@, strati@, blocco@),
                            bv == viste_righe(blocco@),
                            bv.len() == blocco.len(),
                            quante_righe == blocco.len(),
                            quante_righe >= 1,
                            colonne == bv[0].len(),
                            forall|j: int|
                                0 <= j < bv.len() ==> (#[trigger] bv[j]).len() == colonne,
                            pesi@.len() == c * quante_righe,
                            forall|k: int|
                                0 <= k < pesi@.len() ==> (#[trigger] viste(pesi@)[k]) == bv[k
                                    % (quante_righe as int)][k / (quante_righe as int)],
                        decreases colonne - c,
                    {
                        let mut rr: usize = 0;
                        while rr < quante_righe
                            invariant
                                rr <= quante_righe,
                                c < colonne,
                                ll == righe(testo@),
                                0 <= i < ll.len(),
                                l == ll[i as int],
                                carica_righe(stato_iniziale(), ll, 0) == carica_righe(st, ll, i as int),
                                    !inizia_con(l, tag_apprendimento()),
                                    !inizia_con(l, tag_attivazione()),
                                    !inizia_con(l, tag_rete()),
                                    rifila(l) == separatore_strato(),
                                    st == stato_di(tasso@, funzioni@, dimensioni@, strati@, blocco@),
                                bv == viste_righe(blocco@),
                                bv.len() == blocco.len(),
                                quante_righe == blocco.len(),
                                quante_righe >= 1,
                                colonne == bv[0].len(),
                                forall|j: int|
                                    0 <= j < bv.len() ==> (#[trigger] bv[j]).len() == colonne,
                                pesi@.len() == c * quante_righe + rr,
                                forall|k: int|
                                    0 <= k < pesi@.len() ==> (#[trigger] viste(pesi@)[k]) == bv[k
                                        % (quante_righe as int)][k / (quante_righe as int)],
                            decreases quante_righe - rr,
                        {
                            proof {
                                assert(bv[rr as int] == viste(blocco@[rr as int]@));
                                assert(blocco@[rr as int]@.len() == colonne);
                            }
                            let valore = sotto_vettore_intero(&blocco[rr][c]);
                            proof {
                                assert(bv[rr as int][c as int] == blocco@[rr as int]@[c as int]@);
                                assert(valore@ == bv[rr as int][c as int]);
                            }
                            let ghost prima_pesi = pesi@;
                            let ghost posto = pesi@.len() as int;
                            pesi.push(valore);
                            proof {
                                assert(pesi@ == prima_pesi.push(valore));
                                assert(posto == c * quante_righe + rr);
                                assert((c * quante_righe + rr) % (quante_righe as int) == rr
                                    && (c * quante_righe + rr) / (quante_righe as int) == c) by (nonlinear_arith)
                                    requires
                                        0 <= rr < quante_righe,
                                        0 <= c,
                                ;
                                assert(viste(pesi@)[posto] == pesi@[posto]@);
                                assert(pesi@[posto] == valore);
                                assert forall|k: int| 0 <= k < pesi@.len() implies (
                                #[trigger] viste(pesi@)[k]) == bv[k % (quante_righe as int)][k / (
                                quante_righe as int)] by {
                                    if k < posto {
                                        assert(pesi@[k] == prima_pesi[k]);
                                        assert(viste(prima_pesi)[k] == prima_pesi[k]@);
                                        assert(viste(pesi@)[k] == pesi@[k]@);
                                    }
                                }
                            }
                            rr += 1;
                        }
                        proof {
                            assert(c * quante_righe + quante_righe == (c + 1) * quante_righe) by (nonlinear_arith);
                        }
                        c += 1;
                    }
                    let matrice = Matrice { righe: quante_righe, colonne: colonne, pesi: pesi };
                    let ghost mv = chiudi_matrice(bv)->Ok_0;
                    proof {
                        assert(chiudi_matrice(bv) == Ok::<MatriceVista, ErroreRete>(mv));
                        assert(colonne * quante_righe == quante_righe * colonne) by (nonlinear_arith);
                        assert(matrice@.pesi.len() == mv.pesi.len());
                        assert forall|k: int| 0 <= k < matrice@.pesi.len() implies matrice@.pesi[k]
                            == mv.pesi[k] by {
                            assert(matrice@.pesi[k] == viste(matrice.pesi@)[k]);
                        }
                        assert(matrice@.pesi =~= mv.pesi);
                        assert(matrice@ == mv);
                        assert forall|k: int| 0 <= k < matrice@.pesi.len() implies token_numerico(
                            #[trigger] matrice@.pesi[k],
                        ) by {
                            let riga_k = k % (quante_righe as int);
                            let colonna_k = k / (quante_righe as int);
                            assert(0 <= riga_k < quante_righe);
                            assert(0 <= colonna_k < colonne) by (nonlinear_arith)
                                requires
                                    0 <= k < (quante_righe as int) * (colonne as int),
                                    colonna_k == k / (quante_righe as int),
                                    quante_righe >= 1,
                            ;
                            assert(pesi_tutti_numerici(bv[riga_k]));
                            assert(matrice@.pesi[k] == bv[riga_k][colonna_k]);
                        }
                        assert(matrice_valida(matrice@));
                    }
                    let ghost prima_strati = vedute_matrici(strati@);
                    strati.push(matrice);
                    blocco = Vec::new();
                    proof {
                        assert(vedute_matrici(strati@) =~= prima_strati.push(mv));
                        assert(viste_righe(blocco@) =~= Seq::<Seq<Seq<u8>>>::empty());
                        assert(passo_carica(st, l) == Ok::<StatoCarica, ErroreRete>(
                            stato_di(tasso@, funzioni@, dimensioni@, strati@, blocco@),
                        ));
                    }
                } else {
                    let parole_riga = parole_di(linea);
                    let ghost ts = parole(l);
                    proof {
                        assert(viste(parole_riga@) == ts);
                    }
                    let mut k: usize = 0;
                    while k < parole_riga.len()
                        invariant
                            k <= parole_riga.len(),
                            ll == righe(testo@),
                            0 <= i < ll.len(),
                            l == ll[i as int],
                            carica_righe(stato_iniziale(), ll, 0) == carica_righe(st, ll, i as int),
                                !inizia_con(l, tag_apprendimento()),
                                !inizia_con(l, tag_attivazione()),
                                !inizia_con(l, tag_rete()),
                                rifila(l) != separatore_strato(),
                                st == stato_di(tasso@, funzioni@, dimensioni@, strati@, blocco@),
                            viste(parole_riga@) == ts,
                            ts == parole(l),
                            forall|j: int|
                                0 <= j < k ==> token_numerico(#[trigger] ts[j]),
                        decreases parole_riga.len() - k,
                    {
                        if !e_token_numerico(&parole_riga[k]) {
                            proof {
                                assert(parole_riga@[k as int]@ == ts[k as int]);
                                assert(!pesi_tutti_numerici(ts));
                                assert(passo_carica(st, l) == Err::<StatoCarica, ErroreRete>(
                                    ErroreRete::TokenNonNumerico,
                                ));
                            }
                            return Err(ErroreRete::TokenNonNumerico);
                        }
                        proof {
                            assert(parole_riga@[k as int]@ == ts[k as int]);
                        }
                        k += 1;
                    }
                    let ghost prima_blocco = viste_righe(blocco@);
                    blocco.push(parole_riga);
                    proof {
                        assert(pesi_tutti_numerici(ts));
                        assert(viste_righe(blocco@) =~= prima_blocco.push(ts));
                        assert(passo_carica(st, l) == Ok::<StatoCarica, ErroreRete>(
                            stato_di(tasso@, funzioni@, dimensioni@, strati@, blocco@),
                        ));
                    }
                }
            }
            i += 1;
        }
        proof {
            assert(carica_righe(
                stato_di(tasso@, funzioni@, dimensioni@, strati@, blocco@),
                ll,
                ll.len() as int,
            ) == Ok::<StatoCarica, ErroreRete>(
                stato_di(tasso@, funzioni@, dimensioni@, strati@, blocco@),
            ));
        }
        let ghost st_fine = stato_di(tasso@, funzioni@, dimensioni@, strati@, blocco@);
        if funzioni.len() == 0 {
            proof {
                assert(vedute_funzioni(funzioni@).len() == 0);
                assert(fine_carica(st_fine) == Err::<ReteVista, ErroreRete>(
                    ErroreRete::AttivazioniMancanti,
                ));
            }
            return Err(ErroreRete::AttivazioniMancanti);
        }
        if dimensioni.len() < 1 {
            proof {
                assert(fine_carica(st_fine) == Err::<ReteVista, ErroreRete>(
                    ErroreRete::DimensioniIncoerenti,
                ));
            }
            return Err(ErroreRete::DimensioniIncoerenti);
        }
        if strati.len() != dimensioni.len() - 1 {
            proof {
                assert(vedute_matrici(strati@).len() + 1 != dimensioni@.len());
                assert(!forme_giuste(vedute_matrici(strati@), dimensioni@));
                assert(fine_carica(st_fine) == Err::<ReteVista, ErroreRete>(
                    ErroreRete::DimensioniIncoerenti,
                ));
            }
            return Err(ErroreRete::DimensioniIncoerenti);
        }
        let mut j: usize = 0;
        while j < strati.len()
            invariant
                j <= strati.len(),
                st_fine == stato_di(tasso@, funzioni@, dimensioni@, strati@, blocco@),
                ll == righe(testo@),
                carica_righe(stato_iniziale(), ll, 0) == Ok::<StatoCarica, ErroreRete>(st_fine),
                vedute_funzioni(funzioni@).len() > 0,
                dimensioni@.len() >= 1,
                vedute_matrici(strati@).len() + 1 == dimensioni@.len(),
                forall|q: int|
                    0 <= q < j ==> (#[trigger] vedute_matrici(strati@)[q]).righe == dimensioni@[q
                        + 1] && vedute_matrici(strati@)[q].colonne == dimensioni@[q],
            decreases strati.len() - j,
        {
            let combacia = strati[j].numero_righe() == dimensioni[j + 1]
                && strati[j].numero_colonne() == dimensioni[j];
            proof {
                assert(vedute_matrici(strati@)[j as int] == strati@[j as int]@);
            }
            if !combacia {
                proof {
                    assert(!forme_giuste(vedute_matrici(strati@), dimensioni@));
                    assert(fine_carica(st_fine) == Err::<ReteVista, ErroreRete>(
                        ErroreRete::DimensioniIncoerenti,
                    ));
                }
                return Err(ErroreRete::DimensioniIncoerenti);
            }
            j += 1;
        }
        let rete = ReteNeurale {
            strati: strati,
            funzioni_attivazione: funzioni,
            tasso_apprendimento: tasso,
            dimensioni_strati: dimensioni,
        };
        proof {
            assert(forme_giuste(rete@.strati, rete@.dimensioni));
            assert(fine_carica(st_fine) == Ok::<ReteVista, ErroreRete>(rete@));
            assert(rete_valida(rete@));
        }
        Ok(rete)
    }
}

} // verus!
