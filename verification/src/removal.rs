//! The release details that are cut out of a file name before its title is
//! compared with anime titles: encodings, sources, audio and subtitle notes.

use vstd::prelude::*;

verus! {

/// How many words `removal_word` lists.
pub const REMOVAL_WORD_COUNT: usize = 207;

/// The words removed from file titles, in the order they are removed.
pub open spec fn removal_word(k: int) -> Seq<char> {
    if k == 0 {
        " mkv"@
    } else if k == 1 {
        " mp4"@
    } else if k == 2 {
        " avi"@
    } else if k == 3 {
        ".mkv"@
    } else if k == 4 {
        ".mp4"@
    } else if k == 5 {
        ".avi"@
    } else if k == 6 {
        "HEVC-10bit"@
    } else if k == 7 {
        "HEVC-10"@
    } else if k == 8 {
        "HEVC10"@
    } else if k == 9 {
        "HEVC"@
    } else if k == 10 {
        "x264-KRP"@
    } else if k == 11 {
        "x264-KQRM"@
    } else if k == 12 {
        "x264-VARYG"@
    } else if k == 13 {
        "H 264-VARYG"@
    } else if k == 14 {
        "x264"@
    } else if k == 15 {
        "x265"@
    } else if k == 16 {
        "10bits"@
    } else if k == 17 {
        "10bit"@
    } else if k == 18 {
        "10Bit"@
    } else if k == 19 {
        "Hi10P"@
    } else if k == 20 {
        "Hi10"@
    } else if k == 21 {
        "Bluray"@
    } else if k == 22 {
        "BluRay"@
    } else if k == 23 {
        "YUV420P10LE"@
    } else if k == 24 {
        "AVC-YUV420P10"@
    } else if k == 25 {
        "AVC"@
    } else if k == 26 {
        "FLAC2.0"@
    } else if k == 27 {
        "FLAC2 0"@
    } else if k == 28 {
        "FLAC 2 0"@
    } else if k == 29 {
        "2xFLAC"@
    } else if k == 30 {
        "3xFLAC"@
    } else if k == 31 {
        "FLAC"@
    } else if k == 32 {
        "English Subbed"@
    } else if k == 33 {
        "English Sub"@
    } else if k == 34 {
        "English Dub"@
    } else if k == 35 {
        "EnglIsh Dub"@
    } else if k == 36 {
        "WEB-DL"@
    } else if k == 37 {
        "AV1"@
    } else if k == 38 {
        "DualA"@
    } else if k == 39 {
        "Dual audio"@
    } else if k == 40 {
        "Multiple Subtitle"@
    } else if k == 41 {
        "BDrip"@
    } else if k == 42 {
        "BDRip"@
    } else if k == 43 {
        "US BD"@
    } else if k == 44 {
        "UK BD-Remux"@
    } else if k == 45 {
        "UK BD-Remux"@
    } else if k == 46 {
        "BD-Rip"@
    } else if k == 47 {
        "BDRIP"@
    } else if k == 48 {
        "JP.BD"@
    } else if k == 49 {
        "WEBDL"@
    } else if k == 50 {
        "BD"@
    } else if k == 51 {
        "h264_qsv"@
    } else if k == 52 {
        "H264"@
    } else if k == 53 {
        "h264"@
    } else if k == 54 {
        "DTSx2"@
    } else if k == 55 {
        "DTS"@
    } else if k == 56 {
        "-DualPlease"@
    } else if k == 57 {
        "Dual"@
    } else if k == 58 {
        "Opus2 0"@
    } else if k == 59 {
        "Opus"@
    } else if k == 60 {
        "2xOPUS"@
    } else if k == 61 {
        "3xOPUS"@
    } else if k == 62 {
        "OPUS"@
    } else if k == 63 {
        "Multi-Subs"@
    } else if k == 64 {
        "Multi-Sub"@
    } else if k == 65 {
        "Multi-Audio"@
    } else if k == 66 {
        "EAC3"@
    } else if k == 67 {
        "E-AC3"@
    } else if k == 68 {
        "AC3"@
    } else if k == 69 {
        "AAC5 0"@
    } else if k == 70 {
        "AAC2 0"@
    } else if k == 71 {
        "2xAAC"@
    } else if k == 72 {
        "xHE-AAC"@
    } else if k == 73 {
        "AAC"@
    } else if k == 74 {
        "Multi Subs"@
    } else if k == 75 {
        "Multi Sub"@
    } else if k == 76 {
        "WebRip"@
    } else if k == 77 {
        "WEB-RIP"@
    } else if k == 78 {
        "WEBRip"@
    } else if k == 79 {
        "WEB"@
    } else if k == 80 {
        "ENG"@
    } else if k == 81 {
        " Eng"@
    } else if k == 82 {
        "Eng "@
    } else if k == 83 {
        "CR"@
    } else if k == 84 {
        "FUNi-DL"@
    } else if k == 85 {
        "FUNi"@
    } else if k == 86 {
        "FUNI"@
    } else if k == 87 {
        "HIDI"@
    } else if k == 88 {
        "HID"@
    } else if k == 89 {
        "English-Japanese Audio"@
    } else if k == 90 {
        "Japanese Audio"@
    } else if k == 91 {
        "Audio"@
    } else if k == 92 {
        "Remux"@
    } else if k == 93 {
        "4k"@
    } else if k == 94 {
        "4K"@
    } else if k == 95 {
        "NF"@
    } else if k == 96 {
        "X264"@
    } else if k == 97 {
        "Flac"@
    } else if k == 98 {
        "Bdrip"@
    } else if k == 99 {
        "dual audio"@
    } else if k == 100 {
        "multisub"@
    } else if k == 101 {
        "MultiSubs"@
    } else if k == 102 {
        "Multi"@
    } else if k == 103 {
        "Web-Rip"@
    } else if k == 104 {
        "Webrip"@
    } else if k == 105 {
        "Web"@
    } else if k == 106 {
        "8bit"@
    } else if k == 107 {
        "JP"@
    } else if k == 108 {
        "WeTV-Corrected"@
    } else if k == 109 {
        "TV Rip"@
    } else if k == 110 {
        "TV"@
    } else if k == 111 {
        "RAW"@
    } else if k == 112 {
        "E-AC-3"@
    } else if k == 113 {
        "DUAL AUDIO"@
    } else if k == 114 {
        "MULTI-SUB"@
    } else if k == 115 {
        "MULTI"@
    } else if k == 116 {
        "EAC-3"@
    } else if k == 117 {
        "H 264-ZigZag"@
    } else if k == 118 {
        "264-ZigZag"@
    } else if k == 119 {
        "REMUX"@
    } else if k == 120 {
        "LPCM 2 0"@
    } else if k == 121 {
        "LPCM"@
    } else if k == 122 {
        "PCM 2 0"@
    } else if k == 123 {
        "PCM"@
    } else if k == 124 {
        "TrueHD"@
    } else if k == 125 {
        "AC-3"@
    } else if k == 126 {
        "END"@
    } else if k == 127 {
        "DVD-Rip"@
    } else if k == 128 {
        "DSNP"@
    } else if k == 129 {
        "-ZeroBuild"@
    } else if k == 130 {
        "Blu-Ray"@
    } else if k == 131 {
        "AMZN"@
    } else if k == 132 {
        "SRTx4"@
    } else if k == 133 {
        "DDP5 1"@
    } else if k == 134 {
        "DDP5"@
    } else if k == 135 {
        "HDR10"@
    } else if k == 136 {
        "HDR"@
    } else if k == 137 {
        "DVDRip"@
    } else if k == 138 {
        "DVD"@
    } else if k == 139 {
        "DV"@
    } else if k == 140 {
        "DDP 2 0"@
    } else if k == 141 {
        "DDP2 0"@
    } else if k == 142 {
        "DDP2"@
    } else if k == 143 {
        "264-KQRM"@
    } else if k == 144 {
        "JA+EN"@
    } else if k == 145 {
        "264-VARYG"@
    } else if k == 146 {
        "JAP"@
    } else if k == 147 {
        "10-bit"@
    } else if k == 148 {
        "(Weekly)"@
    } else if k == 149 {
        "(Uncensored)"@
    } else if k == 150 {
        "10 bits"@
    } else if k == 151 {
        "10 bit"@
    } else if k == 152 {
        "WVH"@
    } else if k == 153 {
        "WV"@
    } else if k == 154 {
        "VVC"@
    } else if k == 155 {
        "H.264"@
    } else if k == 156 {
        "H 264"@
    } else if k == 157 {
        "x 264"@
    } else if k == 158 {
        "DEXA"@
    } else if k == 159 {
        "143 8561fps"@
    } else if k == 160 {
        "ADN"@
    } else if k == 161 {
        "8-bit"@
    } else if k == 162 {
        "DTS-HD MA"@
    } else if k == 163 {
        "5 1"@
    } else if k == 164 {
        "SEV"@
    } else if k == 165 {
        "Kira "@
    } else if k == 166 {
        "10-Bit"@
    } else if k == 167 {
        "Blu-ray"@
    } else if k == 168 {
        "Jpn"@
    } else if k == 169 {
        "H265"@
    } else if k == 170 {
        "H 265"@
    } else if k == 171 {
        "h 264"@
    } else if k == 172 {
        "-YUV444P10"@
    } else if k == 173 {
        "DUAL-AUDIO"@
    } else if k == 174 {
        "VHS"@
    } else if k == 175 {
        "UHD"@
    } else if k == 176 {
        "-iAHD"@
    } else if k == 177 {
        "HD"@
    } else if k == 178 {
        "[Japanese]"@
    } else if k == 179 {
        "(Japanese)"@
    } else if k == 180 {
        "Remaster"@
    } else if k == 181 {
        "-Tsundere-Raws"@
    } else if k == 182 {
        "B-Global"@
    } else if k == 183 {
        "-LYS1TH3A"@
    } else if k == 184 {
        "-Emmid"@
    } else if k == 185 {
        "HULU"@
    } else if k == 186 {
        "REPACK"@
    } else if k == 187 {
        "(Dub)"@
    } else if k == 188 {
        "-Rapta"@
    } else if k == 189 {
        "-Lazy"@
    } else if k == 190 {
        "-YURASUKA"@
    } else if k == 191 {
        "[}"@
    } else if k == 192 {
        "MKV"@
    } else if k == 193 {
        "Donghua"@
    } else if k == 194 {
        "-aKraa"@
    } else if k == 195 {
        " » Myanime live"@
    } else if k == 196 {
        "REMASTERED"@
    } else if k == 197 {
        "ENCODE"@
    } else if k == 198 {
        "-ZR-"@
    } else if k == 199 {
        "h265"@
    } else if k == 200 {
        "dvd"@
    } else if k == 201 {
        "EN "@
    } else if k == 202 {
        "Jap"@
    } else if k == 203 {
        "BILI"@
    } else if k == 204 {
        "WIP"@
    } else if k == 205 {
        "MA"@
    } else if k == 206 {
        "ASS"@
    } else {
        Seq::empty()
    }
}

/// Word `k` of `removal_word`.
pub fn removal_word_at(k: usize) -> (r: &'static str)
    requires
        k < REMOVAL_WORD_COUNT,
    ensures
        r@ == removal_word(k as int),
{
    if k == 0 {
        " mkv"
    } else if k == 1 {
        " mp4"
    } else if k == 2 {
        " avi"
    } else if k == 3 {
        ".mkv"
    } else if k == 4 {
        ".mp4"
    } else if k == 5 {
        ".avi"
    } else if k == 6 {
        "HEVC-10bit"
    } else if k == 7 {
        "HEVC-10"
    } else if k == 8 {
        "HEVC10"
    } else if k == 9 {
        "HEVC"
    } else if k == 10 {
        "x264-KRP"
    } else if k == 11 {
        "x264-KQRM"
    } else if k == 12 {
        "x264-VARYG"
    } else if k == 13 {
        "H 264-VARYG"
    } else if k == 14 {
        "x264"
    } else if k == 15 {
        "x265"
    } else if k == 16 {
        "10bits"
    } else if k == 17 {
        "10bit"
    } else if k == 18 {
        "10Bit"
    } else if k == 19 {
        "Hi10P"
    } else if k == 20 {
        "Hi10"
    } else if k == 21 {
        "Bluray"
    } else if k == 22 {
        "BluRay"
    } else if k == 23 {
        "YUV420P10LE"
    } else if k == 24 {
        "AVC-YUV420P10"
    } else if k == 25 {
        "AVC"
    } else if k == 26 {
        "FLAC2.0"
    } else if k == 27 {
        "FLAC2 0"
    } else if k == 28 {
        "FLAC 2 0"
    } else if k == 29 {
        "2xFLAC"
    } else if k == 30 {
        "3xFLAC"
    } else if k == 31 {
        "FLAC"
    } else if k == 32 {
        "English Subbed"
    } else if k == 33 {
        "English Sub"
    } else if k == 34 {
        "English Dub"
    } else if k == 35 {
        "EnglIsh Dub"
    } else if k == 36 {
        "WEB-DL"
    } else if k == 37 {
        "AV1"
    } else if k == 38 {
        "DualA"
    } else if k == 39 {
        "Dual audio"
    } else if k == 40 {
        "Multiple Subtitle"
    } else if k == 41 {
        "BDrip"
    } else if k == 42 {
        "BDRip"
    } else if k == 43 {
        "US BD"
    } else if k == 44 {
        "UK BD-Remux"
    } else if k == 45 {
        "UK BD-Remux"
    } else if k == 46 {
        "BD-Rip"
    } else if k == 47 {
        "BDRIP"
    } else if k == 48 {
        "JP.BD"
    } else if k == 49 {
        "WEBDL"
    } else if k == 50 {
        "BD"
    } else if k == 51 {
        "h264_qsv"
    } else if k == 52 {
        "H264"
    } else if k == 53 {
        "h264"
    } else if k == 54 {
        "DTSx2"
    } else if k == 55 {
        "DTS"
    } else if k == 56 {
        "-DualPlease"
    } else if k == 57 {
        "Dual"
    } else if k == 58 {
        "Opus2 0"
    } else if k == 59 {
        "Opus"
    } else if k == 60 {
        "2xOPUS"
    } else if k == 61 {
        "3xOPUS"
    } else if k == 62 {
        "OPUS"
    } else if k == 63 {
        "Multi-Subs"
    } else if k == 64 {
        "Multi-Sub"
    } else if k == 65 {
        "Multi-Audio"
    } else if k == 66 {
        "EAC3"
    } else if k == 67 {
        "E-AC3"
    } else if k == 68 {
        "AC3"
    } else if k == 69 {
        "AAC5 0"
    } else if k == 70 {
        "AAC2 0"
    } else if k == 71 {
        "2xAAC"
    } else if k == 72 {
        "xHE-AAC"
    } else if k == 73 {
        "AAC"
    } else if k == 74 {
        "Multi Subs"
    } else if k == 75 {
        "Multi Sub"
    } else if k == 76 {
        "WebRip"
    } else if k == 77 {
        "WEB-RIP"
    } else if k == 78 {
        "WEBRip"
    } else if k == 79 {
        "WEB"
    } else if k == 80 {
        "ENG"
    } else if k == 81 {
        " Eng"
    } else if k == 82 {
        "Eng "
    } else if k == 83 {
        "CR"
    } else if k == 84 {
        "FUNi-DL"
    } else if k == 85 {
        "FUNi"
    } else if k == 86 {
        "FUNI"
    } else if k == 87 {
        "HIDI"
    } else if k == 88 {
        "HID"
    } else if k == 89 {
        "English-Japanese Audio"
    } else if k == 90 {
        "Japanese Audio"
    } else if k == 91 {
        "Audio"
    } else if k == 92 {
        "Remux"
    } else if k == 93 {
        "4k"
    } else if k == 94 {
        "4K"
    } else if k == 95 {
        "NF"
    } else if k == 96 {
        "X264"
    } else if k == 97 {
        "Flac"
    } else if k == 98 {
        "Bdrip"
    } else if k == 99 {
        "dual audio"
    } else if k == 100 {
        "multisub"
    } else if k == 101 {
        "MultiSubs"
    } else if k == 102 {
        "Multi"
    } else if k == 103 {
        "Web-Rip"
    } else if k == 104 {
        "Webrip"
    } else if k == 105 {
        "Web"
    } else if k == 106 {
        "8bit"
    } else if k == 107 {
        "JP"
    } else if k == 108 {
        "WeTV-Corrected"
    } else if k == 109 {
        "TV Rip"
    } else if k == 110 {
        "TV"
    } else if k == 111 {
        "RAW"
    } else if k == 112 {
        "E-AC-3"
    } else if k == 113 {
        "DUAL AUDIO"
    } else if k == 114 {
        "MULTI-SUB"
    } else if k == 115 {
        "MULTI"
    } else if k == 116 {
        "EAC-3"
    } else if k == 117 {
        "H 264-ZigZag"
    } else if k == 118 {
        "264-ZigZag"
    } else if k == 119 {
        "REMUX"
    } else if k == 120 {
        "LPCM 2 0"
    } else if k == 121 {
        "LPCM"
    } else if k == 122 {
        "PCM 2 0"
    } else if k == 123 {
        "PCM"
    } else if k == 124 {
        "TrueHD"
    } else if k == 125 {
        "AC-3"
    } else if k == 126 {
        "END"
    } else if k == 127 {
        "DVD-Rip"
    } else if k == 128 {
        "DSNP"
    } else if k == 129 {
        "-ZeroBuild"
    } else if k == 130 {
        "Blu-Ray"
    } else if k == 131 {
        "AMZN"
    } else if k == 132 {
        "SRTx4"
    } else if k == 133 {
        "DDP5 1"
    } else if k == 134 {
        "DDP5"
    } else if k == 135 {
        "HDR10"
    } else if k == 136 {
        "HDR"
    } else if k == 137 {
        "DVDRip"
    } else if k == 138 {
        "DVD"
    } else if k == 139 {
        "DV"
    } else if k == 140 {
        "DDP 2 0"
    } else if k == 141 {
        "DDP2 0"
    } else if k == 142 {
        "DDP2"
    } else if k == 143 {
        "264-KQRM"
    } else if k == 144 {
        "JA+EN"
    } else if k == 145 {
        "264-VARYG"
    } else if k == 146 {
        "JAP"
    } else if k == 147 {
        "10-bit"
    } else if k == 148 {
        "(Weekly)"
    } else if k == 149 {
        "(Uncensored)"
    } else if k == 150 {
        "10 bits"
    } else if k == 151 {
        "10 bit"
    } else if k == 152 {
        "WVH"
    } else if k == 153 {
        "WV"
    } else if k == 154 {
        "VVC"
    } else if k == 155 {
        "H.264"
    } else if k == 156 {
        "H 264"
    } else if k == 157 {
        "x 264"
    } else if k == 158 {
        "DEXA"
    } else if k == 159 {
        "143 8561fps"
    } else if k == 160 {
        "ADN"
    } else if k == 161 {
        "8-bit"
    } else if k == 162 {
        "DTS-HD MA"
    } else if k == 163 {
        "5 1"
    } else if k == 164 {
        "SEV"
    } else if k == 165 {
        "Kira "
    } else if k == 166 {
        "10-Bit"
    } else if k == 167 {
        "Blu-ray"
    } else if k == 168 {
        "Jpn"
    } else if k == 169 {
        "H265"
    } else if k == 170 {
        "H 265"
    } else if k == 171 {
        "h 264"
    } else if k == 172 {
        "-YUV444P10"
    } else if k == 173 {
        "DUAL-AUDIO"
    } else if k == 174 {
        "VHS"
    } else if k == 175 {
        "UHD"
    } else if k == 176 {
        "-iAHD"
    } else if k == 177 {
        "HD"
    } else if k == 178 {
        "[Japanese]"
    } else if k == 179 {
        "(Japanese)"
    } else if k == 180 {
        "Remaster"
    } else if k == 181 {
        "-Tsundere-Raws"
    } else if k == 182 {
        "B-Global"
    } else if k == 183 {
        "-LYS1TH3A"
    } else if k == 184 {
        "-Emmid"
    } else if k == 185 {
        "HULU"
    } else if k == 186 {
        "REPACK"
    } else if k == 187 {
        "(Dub)"
    } else if k == 188 {
        "-Rapta"
    } else if k == 189 {
        "-Lazy"
    } else if k == 190 {
        "-YURASUKA"
    } else if k == 191 {
        "[}"
    } else if k == 192 {
        "MKV"
    } else if k == 193 {
        "Donghua"
    } else if k == 194 {
        "-aKraa"
    } else if k == 195 {
        " » Myanime live"
    } else if k == 196 {
        "REMASTERED"
    } else if k == 197 {
        "ENCODE"
    } else if k == 198 {
        "-ZR-"
    } else if k == 199 {
        "h265"
    } else if k == 200 {
        "dvd"
    } else if k == 201 {
        "EN "
    } else if k == 202 {
        "Jap"
    } else if k == 203 {
        "BILI"
    } else if k == 204 {
        "WIP"
    } else if k == 205 {
        "MA"
    } else if k == 206 {
        "ASS"
    } else {
        ""
    }
}

} // verus!
