#!/usr/bin/env python3
"""Refresh the rows of src/tables_data.rs: the Unicode properties the library measures and segments with.

Reads the Unicode Character Database as shipped with Perl (lib/unicore), which is the
copy of the UCD available offline. Each row of the output holds the first code point of
a run of code points that share every property the library asks about:

  width class   0 zero columns, 1 one column, 2 two columns, 3 East Asian Ambiguous
  grapheme      Grapheme_Cluster_Break, refined with Extended_Pictographic and the
                Indic_Conjunct_Break values GB9c needs
  line break    Line_Break after the LB1 resolution, with QU split by Pi/Pf
  flags         bit 0: East Asian Fullwidth/Wide/Halfwidth, bit 1: unassigned and
                Extended_Pictographic

The East Asian Width of the symbol blocks made Wide in Unicode 16 is applied on top.

usage: gen_tables.py [path/to/unicore]   (run from the project root)
"""
import re
import sys

U = (sys.argv[1] if len(sys.argv) > 1 else '/usr/share/perl/5.36.0/unicore').rstrip('/') + '/'


def body(path):
    txt = open(U + path).read()
    return txt, txt.split("return <<'END';\n")[1].split('\nEND')[0]


def load_to(name, default):
    txt, b = body('To/' + name + '.pl')
    m = re.search(r"'missing'\} = '([^']*)'", txt)
    arr = {}
    for line in b.splitlines():
        p = line.split('\t')
        if len(p) < 3:
            continue
        lo = int(p[0], 16)
        hi = int(p[1], 16) if p[1] else lo
        for c in range(lo, hi + 1):
            arr[c] = p[2]
    return arr, (m.group(1) if m else default)


def load_inv(path):
    _, b = body('lib/' + path)
    nums = [int(x) for x in b.split()[1:]]
    s = set()
    for i in range(0, len(nums), 2):
        hi = nums[i + 1] if i + 1 < len(nums) else 0x110000
        s.update(range(nums[i], hi))
    return s


def load_ccc():
    _, b = body('CombiningClass.pl')
    d = {}
    for line in b.splitlines():
        p = line.split('\t')
        if len(p) < 3:
            continue
        lo = int(p[0], 16)
        hi = int(p[1], 16) if p[1] else lo
        for c in range(lo, hi + 1):
            d[c] = int(p[2])
    return d


WIDE16 = [(0x2630, 0x2637), (0x268A, 0x268F), (0x4DC0, 0x4DFF), (0x1D300, 0x1D356), (0x1D360, 0x1D376)]
GCB = ['Other', 'CR', 'LF', 'Control', 'Extend', 'ZWJ', 'Regional_Indicator', 'Prepend', 'SpacingMark',
       'L', 'V', 'T', 'LV', 'LVT', 'ExtPict', 'InCBLinker', 'InCBConsonant', 'InCBExtend']
LB = ['XX', 'AK', 'AL', 'AP', 'AS', 'B2', 'BA', 'BB', 'BK', 'CB', 'CL', 'CM', 'CP', 'CR', 'EB', 'EM', 'EX',
      'GL', 'H2', 'H3', 'HH', 'HL', 'HY', 'ID', 'IN', 'IS', 'JL', 'JT', 'JV', 'LF', 'NL', 'NS', 'NU', 'OP', 'PO',
      'PR', 'QU', 'QUPi', 'QUPf', 'RI', 'SP', 'SY', 'VF', 'VI', 'WJ', 'ZW', 'ZWJ']
CHUNK = 256
INCB_SCRIPTS = {'Bengali', 'Devanagari', 'Gujarati', 'Malayalam', 'Oriya', 'Telugu'}


def build():
    gcb, gcbm = load_to('GCB', 'Other')
    lb, lbm = load_to('Lb', 'XX')
    ea, eam = load_to('Ea', 'N')
    gc, gcm = load_to('Gc', 'Cn')
    insc, inscm = load_to('InSC', 'Other')
    sc, scm = load_to('Sc', 'Unknown')
    ccc = load_ccc()
    pict = load_inv('ExtPict/Y.pl')
    rows = []
    for cp in range(0x110000):
        g = gc.get(cp, gcm)
        e = ea.get(cp, eam)
        if any(lo <= cp <= hi for lo, hi in WIDE16):
            e = 'W'
        if 0x1F3FB <= cp <= 0x1F3FF:
            w = 0
        elif g in ('Mn', 'Me', 'Cf'):
            w = 0
        elif 0x1160 <= cp <= 0x11FF or 0xD7B0 <= cp <= 0xD7FF:
            w = 0
        elif 0x1F1E6 <= cp <= 0x1F1FF:
            w = 2
        elif e in ('W', 'F'):
            w = 2
        elif e == 'A':
            w = 3
        else:
            w = 1
        gb = gcb.get(cp, gcbm)
        if gb == 'ExtPict_XX':
            gb = 'Other'
        if cp in pict and gb == 'Other':
            gb = 'ExtPict'
        s = sc.get(cp, scm)
        isc = insc.get(cp, inscm)
        if isc == 'Virama' and g == 'Mn' and s in INCB_SCRIPTS:
            gb = 'InCBLinker'
        elif isc == 'Consonant' and s in INCB_SCRIPTS:
            gb = 'InCBConsonant'
        elif gb == 'Extend' and ccc.get(cp, 0) != 0:
            gb = 'InCBExtend'
        l = lb.get(cp, lbm)
        if l in ('AI', 'SG', 'XX', 'Unknown'):
            l = 'AL'
        elif l == 'SA':
            l = 'CM' if g in ('Mn', 'Mc') else 'AL'
        elif l == 'CJ':
            l = 'NS'
        elif l == 'QU':
            l = 'QUPi' if g == 'Pi' else ('QUPf' if g == 'Pf' else 'QU')
        flags = (1 if e in ('F', 'W', 'H') else 0) | (2 if (cp in pict and g == 'Cn') else 0)
        rows.append((w, GCB.index(gb), LB.index(l), flags))
    return rows


def main():
    rows = build()
    out = []
    start = 0x80
    for cp in range(0x81, 0x110001):
        if cp == 0x110000 or rows[cp] != rows[start]:
            out.append((start,) + rows[start])
            start = cp
    chunks = [out[i:i + CHUNK] for i in range(0, len(out), CHUNK)]
    # Rewrite the rows of src/tables_data.rs in place; the code around them
    # stays as it is, so the number of blocks must not change.
    path = 'src/tables_data.rs'
    text = open(path).read()
    blocks = re.findall(r'pub const RUNS_(\d+): ', text)
    if len(blocks) != len(chunks):
        sys.exit('the data now needs %d blocks, the file has %d' % (len(chunks), len(blocks)))
    for n, ch in enumerate(chunks):
        rows = ''.join('    (0x%X, %d, %d, %d, %d),\n' % r for r in ch)
        pat = re.compile(r'(pub const RUNS_%d: \[\(u32, u8, u8, u8, u8\); )\d+(\] = \[\n).*?(\];)' % n, re.S)
        text = pat.sub(lambda m: m.group(1) + str(len(ch)) + m.group(2) + rows + m.group(3), text)
    text = re.sub(r'pub const RUN_COUNT: usize = \d+;', 'pub const RUN_COUNT: usize = %d;' % len(out), text)
    open(path, 'w').write(text)


if __name__ == '__main__':
    main()
